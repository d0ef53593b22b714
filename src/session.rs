//! The state machine of one tunnel session: connect to the remote, perform
//! the TLS handshake with the tunnel's server name, relay both directions,
//! and end with an outcome once both directions have finished. The caller
//! performs each action and reports each event.
use vstd::prelude::*;

use crate::endpoint::Endpoint;
use crate::server::Tunnel;

verus! {

/// The stage a session is in; the stages run strictly in this order.
#[derive(Clone, Copy, Debug, PartialEq, Eq, Structural)]
pub enum Phase {
    Connecting,
    Handshaking,
    Relaying,
    Done,
}

/// Why a session failed.
#[derive(Clone, Copy, Debug, PartialEq, Eq, Structural)]
pub enum Failure {
    /// The outbound TCP connection failed.
    Connect,
    /// The TLS handshake failed.
    Tls,
    /// A relay direction ended with an I/O error.
    Io,
}

/// A session's outcome; it leaves `Running` once and never changes after.
#[derive(Clone, Copy, Debug, PartialEq, Eq, Structural)]
pub enum Outcome {
    Running,
    Completed,
    Failed(Failure),
}

/// A relay direction: from the local client to the remote server, or back.
#[derive(Clone, Copy, Debug, PartialEq, Eq, Structural)]
pub enum Direction {
    ToServer,
    ToClient,
}

/// The state of one relay direction.
#[derive(Clone, Copy, Debug, PartialEq, Eq, Structural)]
pub enum Flow {
    Open,
    /// Its source ended and the destination's write half was shut.
    Ended,
    /// An I/O error ended it.
    Broken,
}

/// What the caller reports to the session.
#[derive(Clone, Copy, Debug, PartialEq, Eq, Structural)]
pub enum Event {
    Connected,
    ConnectFailed,
    Handshaken,
    HandshakeFailed,
    /// The direction finished cleanly (see `relay::Pipe::is_closed`).
    Ended(Direction),
    /// The direction ended with an I/O error (see `relay::Pipe::has_failed`).
    Broke(Direction),
}

/// What the session asks of the caller.
#[derive(Clone, Copy, Debug, PartialEq, Eq, Structural)]
pub enum Action {
    /// Start the TLS handshake over the new connection, announcing `sni()`.
    Handshake,
    /// Start both relay directions.
    Relay,
    /// Release the local socket; the session is over.
    ReleaseLocal,
    /// Close both sockets; the session is over.
    CloseBoth,
    /// The other direction is still running: keep it going.
    Wait,
    /// Both directions have finished; the session is over.
    Finish,
    /// The event does not apply to the current stage and changes nothing.
    Ignore,
}

/// The state of a session.
#[derive(Clone, Copy, Debug, PartialEq, Eq, Structural)]
pub struct SessionState {
    pub phase: Phase,
    pub to_server: Flow,
    pub to_client: Flow,
    pub outcome: Outcome,
}

pub open spec fn flow_of(s: SessionState, d: Direction) -> Flow {
    match d {
        Direction::ToServer => s.to_server,
        Direction::ToClient => s.to_client,
    }
}

pub open spec fn with_flow(s: SessionState, d: Direction, f: Flow) -> SessionState {
    match d {
        Direction::ToServer => SessionState { to_server: f, ..s },
        Direction::ToClient => SessionState { to_client: f, ..s },
    }
}

/// A relay direction has finished once it is no longer open; the session
/// finishes when both have, and completes only if both ended cleanly.
pub open spec fn settle(s: SessionState) -> (SessionState, Action) {
    if s.to_server != Flow::Open && s.to_client != Flow::Open {
        let outcome = if s.to_server == Flow::Ended && s.to_client == Flow::Ended {
            Outcome::Completed
        } else {
            Outcome::Failed(Failure::Io)
        };
        (SessionState { phase: Phase::Done, outcome, ..s }, Action::Finish)
    } else {
        (s, Action::Wait)
    }
}

pub open spec fn step_spec(s: SessionState, e: Event) -> (SessionState, Action) {
    match (s.phase, e) {
        (Phase::Connecting, Event::Connected) => (SessionState { phase: Phase::Handshaking, ..s }, Action::Handshake),
        (Phase::Connecting, Event::ConnectFailed) => (
            SessionState { phase: Phase::Done, outcome: Outcome::Failed(Failure::Connect), ..s },
            Action::ReleaseLocal,
        ),
        (Phase::Handshaking, Event::Handshaken) => (SessionState { phase: Phase::Relaying, ..s }, Action::Relay),
        (Phase::Handshaking, Event::HandshakeFailed) => (
            SessionState { phase: Phase::Done, outcome: Outcome::Failed(Failure::Tls), ..s },
            Action::CloseBoth,
        ),
        (Phase::Relaying, Event::Ended(d)) => if flow_of(s, d) == Flow::Open {
            settle(with_flow(s, d, Flow::Ended))
        } else {
            (s, Action::Ignore)
        },
        (Phase::Relaying, Event::Broke(d)) => if flow_of(s, d) == Flow::Open {
            settle(with_flow(s, d, Flow::Broken))
        } else {
            (s, Action::Ignore)
        },
        _ => (s, Action::Ignore),
    }
}

/// The state in which a session starts.
pub open spec fn initial() -> SessionState {
    SessionState {
        phase: Phase::Connecting,
        to_server: Flow::Open,
        to_client: Flow::Open,
        outcome: Outcome::Running,
    }
}

/// One session of a tunnel: its state, and the tunnel's identity that it
/// keeps for its whole life.
pub struct Session {
    pub state: SessionState,
    pub tunnel_name: String,
    pub remote: Endpoint,
    pub sni: String,
}

/// Starts a session for a connection accepted on `tunnel`'s listener. The
/// caller first connects to `remote`.
pub fn start_tunnel(tunnel: &Tunnel) -> (r: Session)
    ensures
        r.state == initial(),
        r.tunnel_name@ == tunnel.name@,
        r.remote == tunnel.remote,
        r.sni@ == tunnel.sni_addr@,
{
    Session {
        state: SessionState {
            phase: Phase::Connecting,
            to_server: Flow::Open,
            to_client: Flow::Open,
            outcome: Outcome::Running,
        },
        tunnel_name: tunnel.name.clone(),
        remote: tunnel.remote,
        sni: tunnel.sni_addr.clone(),
    }
}

fn settle_exec(s: SessionState) -> (r: (SessionState, Action))
    ensures
        r == settle(s),
{
    if s.to_server != Flow::Open && s.to_client != Flow::Open {
        let outcome = if s.to_server == Flow::Ended && s.to_client == Flow::Ended {
            Outcome::Completed
        } else {
            Outcome::Failed(Failure::Io)
        };
        (SessionState { phase: Phase::Done, outcome, ..s }, Action::Finish)
    } else {
        (s, Action::Wait)
    }
}

impl Session {
    /// The server name that the handshake announces.
    pub fn sni(&self) -> (r: &String)
        ensures
            r@ == self.sni@,
    {
        &self.sni
    }

    /// Takes an event and says what the caller does next.
    pub fn step(&mut self, e: Event) -> (r: Action)
        ensures
            (final(self).state, r) == step_spec(old(self).state, e),
            final(self).tunnel_name == old(self).tunnel_name,
            final(self).remote == old(self).remote,
            final(self).sni == old(self).sni,
    {
        let s = self.state;
        let (next, action) = match (s.phase, e) {
            (Phase::Connecting, Event::Connected) => (SessionState { phase: Phase::Handshaking, ..s }, Action::Handshake),
            (Phase::Connecting, Event::ConnectFailed) => (
                SessionState { phase: Phase::Done, outcome: Outcome::Failed(Failure::Connect), ..s },
                Action::ReleaseLocal,
            ),
            (Phase::Handshaking, Event::Handshaken) => (SessionState { phase: Phase::Relaying, ..s }, Action::Relay),
            (Phase::Handshaking, Event::HandshakeFailed) => (
                SessionState { phase: Phase::Done, outcome: Outcome::Failed(Failure::Tls), ..s },
                Action::CloseBoth,
            ),
            (Phase::Relaying, Event::Ended(d)) | (Phase::Relaying, Event::Broke(d)) => {
                let f = match d {
                    Direction::ToServer => s.to_server,
                    Direction::ToClient => s.to_client,
                };
                if f == Flow::Open {
                    let g = if e == Event::Ended(d) { Flow::Ended } else { Flow::Broken };
                    let t = match d {
                        Direction::ToServer => SessionState { to_server: g, ..s },
                        Direction::ToClient => SessionState { to_client: g, ..s },
                    };
                    settle_exec(t)
                } else {
                    (s, Action::Ignore)
                }
            },
            _ => (s, Action::Ignore),
        };
        self.state = next;
        action
    }

    /// The session's outcome so far.
    pub fn outcome(&self) -> (r: Outcome)
        ensures
            r == self.state.outcome,
    {
        self.state.outcome
    }
}

/// The states a session passes through from its start, event by event.
pub open spec fn run(events: Seq<Event>) -> SessionState
    decreases events.len(),
{
    if events.len() == 0 {
        initial()
    } else {
        step_spec(run(events.drop_last()), events.last()).0
    }
}

/// Half-close: when one direction ends cleanly while the other is still
/// open, the session keeps relaying the other direction and asks for no
/// close; when that direction then ends cleanly too, the session completes.
pub proof fn lemma_half_close(s: SessionState, d: Direction, other: Direction)
    requires
        s.phase == Phase::Relaying,
        s.to_server == Flow::Open,
        s.to_client == Flow::Open,
        d != other,
    ensures
        ({
            let (s1, a1) = step_spec(s, Event::Ended(d));
            let (s2, a2) = step_spec(s1, Event::Ended(other));
            &&& a1 == Action::Wait
            &&& s1.phase == Phase::Relaying
            &&& flow_of(s1, other) == Flow::Open
            &&& s1.outcome == s.outcome
            &&& a2 == Action::Finish
            &&& s2.phase == Phase::Done
            &&& s2.outcome == Outcome::Completed
        }),
{
}

/// An error in one direction does not end the other: the session keeps
/// relaying until the other direction finishes, then reports the failure.
pub proof fn lemma_error_isolated(s: SessionState, d: Direction, other: Direction, last: Event)
    requires
        s.phase == Phase::Relaying,
        s.to_server == Flow::Open,
        s.to_client == Flow::Open,
        d != other,
        last == Event::Ended(other) || last == Event::Broke(other),
    ensures
        ({
            let (s1, a1) = step_spec(s, Event::Broke(d));
            let (s2, a2) = step_spec(s1, last);
            &&& a1 == Action::Wait
            &&& s1.phase == Phase::Relaying
            &&& flow_of(s1, other) == Flow::Open
            &&& a2 == Action::Finish
            &&& s2.outcome == Outcome::Failed(Failure::Io)
        }),
{
}

/// Stage order and a monotonic outcome, over every run of events: relaying
/// happens only after a handshake, which happens only after a connect; the
/// outcome is `Running` exactly until the session is done, and a done
/// session ignores every event.
pub proof fn lemma_run_invariant(events: Seq<Event>)
    ensures
        ({
            let s = run(events);
            &&& (s.phase == Phase::Done) <==> (s.outcome != Outcome::Running)
            &&& s.phase == Phase::Connecting ==> s.to_server == Flow::Open && s.to_client == Flow::Open
            &&& s.phase == Phase::Handshaking ==> s.to_server == Flow::Open && s.to_client == Flow::Open
            &&& s.phase == Phase::Relaying ==> s.to_server == Flow::Open || s.to_client == Flow::Open
            &&& forall|e: Event| s.phase == Phase::Done ==> #[trigger] step_spec(s, e) == (s, Action::Ignore)
        }),
    decreases events.len(),
{
    if events.len() > 0 {
        lemma_run_invariant(events.drop_last());
    }
}

/// A session reaches the relay only through a successful connect and then a
/// successful handshake: the event that starts relaying is `Handshaken`,
/// received in the handshake stage, which is entered only by `Connected`.
pub proof fn lemma_stage_order(s: SessionState, e: Event)
    ensures
        step_spec(s, e).1 == Action::Relay ==> s.phase == Phase::Handshaking && e == Event::Handshaken,
        step_spec(s, e).1 == Action::Handshake ==> s.phase == Phase::Connecting && e == Event::Connected,
        step_spec(s, e).0.phase == Phase::Relaying ==> s.phase == Phase::Relaying || (s.phase
            == Phase::Handshaking && e == Event::Handshaken),
        step_spec(s, e).0.phase == Phase::Handshaking ==> s.phase == Phase::Handshaking || (s.phase
            == Phase::Connecting && e == Event::Connected),
{
}

/// The server name that a session's handshake announces is the tunnel's
/// configured one, or else the host part of the tunnel's remote address.
pub proof fn lemma_session_sni(
    t: Tunnel,
    name: String,
    c: crate::config::Tunnel,
    io: crate::server::TunnelIo,
    s: Session,
)
    requires
        crate::server::made_from(t, name, c, io),
        s.sni@ == t.sni_addr@,
    ensures
        c.sni_addr is Some ==> s.sni@ == c.sni_addr->Some_0@,
        c.sni_addr is None ==> s.sni@ == crate::endpoint::host_of(c.remote@),
{
}

} // verus!
