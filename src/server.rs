//! The server: turns configured tunnels into the set it serves, and decides
//! which of them run once their listeners were bound.
use vstd::prelude::*;

use crate::config::Config;
use crate::endpoint::{host_of, host_portion, Endpoint};
use crate::select::{select_all, Select, SourcePoll, Step};
use crate::tls::{build_connector, trust_spec, AnchorFile, Trust};

verus! {

/// What the process learned of one configured tunnel from outside: its two
/// addresses as resolved (`None` when resolution failed) and what could be
/// read of its certificate file.
#[derive(Debug)]
pub struct TunnelIo {
    pub local: Option<Endpoint>,
    pub remote: Option<Endpoint>,
    pub anchor: AnchorFile,
}

/// A tunnel that the server serves, with the connector that all of its
/// sessions share.
pub struct Tunnel {
    pub name: String,
    pub local: Endpoint,
    pub remote: Endpoint,
    pub sni_addr: String,
    pub connector: native_tls::TlsConnector,
    pub trust: Trust,
}

/// Why a set of tunnels cannot be served.
#[derive(Clone, Copy, Debug, PartialEq, Eq, Structural)]
pub enum ConfigError {
    /// The configured tunnels at these two positions listen on one address.
    DuplicateListen { first: usize, second: usize },
    /// The TLS backend could not build the connector of the tunnel at this position.
    Connector(usize),
}

/// Why the server cannot start serving.
#[derive(Clone, Copy, Debug, PartialEq, Eq, Structural)]
pub enum StartError {
    /// No tunnel's listener could be bound.
    NoListeners,
}

/// Both addresses of the tunnel resolved.
pub open spec fn resolved(io: TunnelIo) -> bool {
    io.local is Some && io.remote is Some
}

/// The positions of the tunnels that are kept: those whose addresses resolved.
pub open spec fn kept(io: Seq<TunnelIo>) -> Seq<int>
    decreases io.len(),
{
    if io.len() == 0 {
        Seq::empty()
    } else {
        let k = io.len() - 1;
        if resolved(io[k]) {
            kept(io.take(k)).push(k)
        } else {
            kept(io.take(k))
        }
    }
}

/// The kept tunnels at positions `i < j` listen on the same address.
pub open spec fn duplicate_at(io: Seq<TunnelIo>, i: int, j: int) -> bool {
    &&& 0 <= i < j < io.len()
    &&& resolved(io[i]) && resolved(io[j])
    &&& io[i].local == io[j].local
}

pub open spec fn has_duplicate(io: Seq<TunnelIo>) -> bool {
    exists|i: int, j: int| duplicate_at(io, i, j)
}

/// The server name a tunnel announces: the configured one, or else the host
/// part of its remote address.
pub open spec fn sni_spec(t: crate::config::Tunnel) -> Seq<char> {
    match t.sni_addr {
        Some(s) => s@,
        None => host_of(t.remote@),
    }
}

/// The served tunnel `t` is made from configured tunnel `c` and what was
/// learned of it, `io`.
pub open spec fn made_from(t: Tunnel, name: String, c: crate::config::Tunnel, io: TunnelIo) -> bool {
    &&& t.name@ == name@
    &&& Some(t.local) == io.local
    &&& Some(t.remote) == io.remote
    &&& t.sni_addr@ == sni_spec(c)
    &&& exists|parsed: bool| t.trust == trust_spec(io.anchor, parsed)
    &&& !(io.anchor is Bytes) ==> t.trust == trust_spec(io.anchor, false)
}

pub struct Server {
    tunnels: Vec<Tunnel>,
}

impl View for Server {
    type V = Seq<Tunnel>;

    closed spec fn view(&self) -> Seq<Tunnel> {
        self.tunnels@
    }
}

proof fn lemma_kept_bound(io: Seq<TunnelIo>)
    ensures
        kept(io).len() <= io.len(),
        forall|k: int| 0 <= k < kept(io).len() ==> 0 <= #[trigger] kept(io)[k] < io.len(),
        forall|a: int, b: int| 0 <= a < b < kept(io).len() ==> kept(io)[a] < kept(io)[b],
    decreases io.len(),
{
    if io.len() > 0 {
        lemma_kept_bound(io.take(io.len() - 1));
    }
}

proof fn lemma_kept_step(io: Seq<TunnelIo>, i: int)
    requires
        0 <= i < io.len(),
    ensures
        kept(io.take(i + 1)) == if resolved(io[i]) {
            kept(io.take(i)).push(i)
        } else {
            kept(io.take(i))
        },
{
    let t = io.take(i + 1);
    assert(t.take(i) =~= io.take(i));
}

/// Finds two kept tunnels that listen on one address.
fn find_duplicate(io: &Vec<TunnelIo>) -> (r: Option<(usize, usize)>)
    ensures
        r is Some ==> duplicate_at(io@, r->Some_0.0 as int, r->Some_0.1 as int),
        r is None ==> !has_duplicate(io@),
{
    let n = io.len();
    let mut j: usize = 0;
    while j < n
        invariant
            n == io@.len(),
            j <= n,
            forall|a: int, b: int| 0 <= a < b < j ==> !duplicate_at(io@, a, b),
        decreases n - j,
    {
        if let (Some(lj), Some(_)) = (io[j].local, io[j].remote) {
            let mut i: usize = 0;
            while i < j
                invariant
                    n == io@.len(),
                    i <= j < n,
                    io@[j as int].local == Some(lj),
                    resolved(io@[j as int]),
                    forall|a: int| 0 <= a < i ==> !duplicate_at(io@, a, j as int),
                decreases j - i,
            {
                if let (Some(li), Some(_)) = (io[i].local, io[i].remote) {
                    if li == lj {
                        return Some((i, j));
                    }
                }
                i = i + 1;
            }
        }
        j = j + 1;
    }
    None
}

impl Server {
    /// Builds the served tunnels from the configured ones, in order. `io[i]`
    /// is what was learned of the tunnel at position `i`. A tunnel whose
    /// addresses did not resolve is left out; a certificate that cannot be
    /// used degrades that tunnel to the default trust store and does not
    /// exclude it. Two kept tunnels on one listen address are refused.
    pub fn from_config(config: &Config, io: &Vec<TunnelIo>) -> (r: Result<Server, ConfigError>)
        requires
            io@.len() == config.tunnels@.len(),
        ensures
            has_duplicate(io@) <==> r matches Err(ConfigError::DuplicateListen { .. }),
            r matches Err(ConfigError::DuplicateListen { first, second }) ==> duplicate_at(
                io@,
                first as int,
                second as int,
            ),
            r matches Err(ConfigError::Connector(i)) ==> kept(io@).contains(i as int),
            r matches Ok(s) ==> {
                &&& s@.len() == kept(io@).len()
                &&& forall|k: int|
                    0 <= k < s@.len() ==> {
                        let i = #[trigger] kept(io@)[k];
                        made_from(s@[k], config.tunnels@[i].0, config.tunnels@[i].1, io@[i])
                    }
            },
    {
        if let Some((first, second)) = find_duplicate(io) {
            return Err(ConfigError::DuplicateListen { first, second });
        }
        let n = io.len();
        let mut tunnels: Vec<Tunnel> = Vec::new();
        let mut i: usize = 0;
        while i < n
            invariant
                n == io@.len(),
                n == config.tunnels@.len(),
                !has_duplicate(io@),
                i <= n,
                tunnels@.len() == kept(io@.take(i as int)).len(),
                forall|k: int|
                    0 <= k < tunnels@.len() ==> {
                        let m = #[trigger] kept(io@.take(i as int))[k];
                        made_from(tunnels@[k], config.tunnels@[m].0, config.tunnels@[m].1, io@[m])
                    },
            decreases n - i,
        {
            proof {
                lemma_kept_step(io@, i as int);
                lemma_kept_bound(io@.take(i as int));
            }
            if let (Some(local), Some(remote)) = (io[i].local, io[i].remote) {
                let name = &config.tunnels[i].0;
                let t = &config.tunnels[i].1;
                let sni_addr = match &t.sni_addr {
                    Some(s) => s.clone(),
                    None => host_portion(t.remote.as_str()),
                };
                let (connector, trust) = match build_connector(&io[i].anchor) {
                    Ok(c) => c,
                    Err(_) => {
                        proof {
                            assert(kept(io@.take(n as int)) == kept(io@)) by {
                                assert(io@.take(n as int) =~= io@);
                            }
                            lemma_kept_prefix(io@, i as int + 1);
                        }
                        return Err(ConfigError::Connector(i));
                    },
                };
                tunnels.push(Tunnel { name: name.clone(), local, remote, sni_addr, connector, trust });
            }
            i = i + 1;
        }
        proof {
            assert(io@.take(n as int) =~= io@);
        }
        Ok(Server { tunnels })
    }

    /// The served tunnels, in configuration order.
    pub fn tunnels(&self) -> (r: &Vec<Tunnel>)
        ensures
            r@ == self@,
    {
        &self.tunnels
    }

    /// Starts serving with the tunnels whose listener was bound: `bound[i]`
    /// tells whether the listener of tunnel `i` was. With none bound there is
    /// nothing to serve, and that is an error.
    pub fn start(self, bound: &Vec<bool>) -> (r: Result<Running, StartError>)
        requires
            bound@.len() == self@.len(),
        ensures
            r is Err <==> forall|i: int| 0 <= i < bound@.len() ==> !bound@[i],
            r is Err ==> r == Err::<Running, StartError>(StartError::NoListeners),
            r matches Ok(run) ==> {
                &&& run.wf()
                &&& run.tunnels@.len() > 0
                &&& run.tunnels@ == bound_only(self@, bound@)
                &&& run.select@.live == Seq::new(run.tunnels@.len(), |k: int| k as usize)
                &&& run.select@.cursor == 0 && run.select@.polled == 0
            },
    {
        let ghost all = self@;
        let mut tunnels = self.tunnels;
        let mut kept: Vec<Tunnel> = Vec::new();
        let n = bound.len();
        let mut i: usize = 0;
        while i < n
            invariant
                n == bound@.len(),
                n == all.len(),
                i <= n,
                tunnels@ == all.subrange(i as int, n as int),
                kept@ == bound_only(all.take(i as int), bound@.take(i as int)),
                kept@.len() == 0 <==> forall|k: int| 0 <= k < i ==> !bound@[k],
            decreases n - i,
        {
            proof {
                assert(all.take(i + 1).take(i as int) =~= all.take(i as int));
                assert(bound@.take(i + 1).take(i as int) =~= bound@.take(i as int));
            }
            let t = tunnels.remove(0);
            if bound[i] {
                kept.push(t);
            }
            i = i + 1;
            proof {
                assert(tunnels@ =~= all.subrange(i as int, n as int));
            }
        }
        proof {
            assert(all.take(n as int) =~= all);
            assert(bound@.take(n as int) =~= bound@);
        }
        if kept.len() == 0 {
            return Err(StartError::NoListeners);
        }
        let select = select_all(kept.len());
        Ok(Running { tunnels: kept, select })
    }
}

proof fn lemma_kept_prefix(io: Seq<TunnelIo>, i: int)
    requires
        0 < i <= io.len(),
        resolved(io[i - 1]),
    ensures
        kept(io).contains(i - 1),
    decreases io.len(),
{
    if io.len() == i {
        lemma_kept_step(io, i - 1);
        assert(io.take(i) =~= io);
        assert(kept(io.take(i)).last() == i - 1);
    } else {
        let k = io.len() - 1;
        lemma_kept_prefix(io.take(k), i);
        lemma_kept_step(io, k);
        assert(io.take(k + 1) =~= io);
        let j = choose|j: int| 0 <= j < kept(io.take(k)).len() && kept(io.take(k))[j] == i - 1;
        assert(kept(io)[j] == i - 1);
    }
}

/// The tunnels whose `bound` flag is set, in order.
pub open spec fn bound_only(ts: Seq<Tunnel>, bound: Seq<bool>) -> Seq<Tunnel>
    decreases ts.len(),
{
    if ts.len() == 0 {
        Seq::empty()
    } else {
        let k = ts.len() - 1;
        let rest = bound_only(ts.take(k), bound.take(k));
        if bound[k] {
            rest.push(ts[k])
        } else {
            rest
        }
    }
}

/// A server that serves: the tunnels whose listener is bound, and the
/// scheduler over their listeners, source `k` being tunnel `k`'s listener.
pub struct Running {
    pub tunnels: Vec<Tunnel>,
    pub select: Select,
}

impl Running {
    pub open spec fn wf(&self) -> bool {
        &&& self.select@.wf()
        &&& forall|k: int| 0 <= k < self.select@.live.len() ==> #[trigger] self.select@.live[k] < self.tunnels@.len()
    }

    /// The listener to poll next, or `None` when every listener is exhausted.
    pub fn poll_target(&self) -> (r: Option<usize>)
        requires
            self.wf(),
        ensures
            r is Some ==> r->Some_0 < self.tunnels@.len(),
            self.select@.live.len() == 0 ==> r is None,
            self.select@.live.len() > 0 ==> r == Some(self.select@.live[self.select@.position() as int]),
    {
        self.select.poll_target()
    }

    /// Reports what polling the listener at `poll_target` gave; see `Select::report`.
    pub fn report(&mut self, o: SourcePoll) -> (r: Step)
        requires
            old(self).wf(),
        ensures
            final(self).wf(),
            final(self).tunnels@ == old(self).tunnels@,
            (r, final(self).select@) == crate::select::report_spec(old(self).select@, o),
            r matches Step::Emit(k) ==> k < final(self).tunnels@.len(),
            r matches Step::Poll(k) ==> k < final(self).tunnels@.len(),
    {
        let ghost v = self.select@;
        let r = self.select.report(o);
        proof {
            crate::select::lemma_report_ids(v, o, self.tunnels@.len());
            let (s2, v2) = crate::select::report_spec(v, o);
            assert(v2 == self.select@);
            assert forall|k: int| 0 <= k < self.select@.live.len() implies #[trigger] self.select@.live[k]
                < self.tunnels@.len() by {
                assert(v2.live[k] < self.tunnels@.len());
            }
        }
        r
    }
}

/// A certificate file never decides whether a tunnel is served: two
/// configurations that differ only in what was read of the certificate files
/// keep the same tunnels and meet the same duplicate check.
pub proof fn lemma_anchor_never_excludes(a: Seq<TunnelIo>, b: Seq<TunnelIo>)
    requires
        a.len() == b.len(),
        forall|i: int| 0 <= i < a.len() ==> a[i].local == b[i].local && a[i].remote == b[i].remote,
    ensures
        kept(a) == kept(b),
        has_duplicate(a) == has_duplicate(b),
    decreases a.len(),
{
    if a.len() > 0 {
        let k = a.len() - 1;
        lemma_anchor_never_excludes(a.take(k), b.take(k));
    }
    if has_duplicate(a) {
        let (i, j) = choose|i: int, j: int| duplicate_at(a, i, j);
        assert(duplicate_at(b, i, j));
    }
    if has_duplicate(b) {
        let (i, j) = choose|i: int, j: int| duplicate_at(b, i, j);
        assert(duplicate_at(a, i, j));
    }
}

/// A tunnel whose certificate file could not be read is served with the
/// default trust store alone.
pub proof fn lemma_unreadable_anchor_degrades(t: Tunnel, name: String, c: crate::config::Tunnel, io: TunnelIo)
    requires
        made_from(t, name, c, io),
        io.anchor is Unreadable,
    ensures
        t.trust == Trust::Degraded(crate::tls::AnchorIssue::Unreadable),
{
}

} // verus!
