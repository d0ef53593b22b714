//! One direction of a tunnel's byte relay: bytes read from the source are
//! held until they are written to the destination, in order and unchanged,
//! and the destination's write half is shut once the source has ended and
//! every byte read has been written. The caller performs the reads, writes
//! and the shutdown that `next_action` asks for and reports what happened.
use vstd::prelude::*;

verus! {

/// What the caller does next for one relay direction.
#[derive(Clone, Copy, Debug, PartialEq, Eq, Structural)]
pub enum PipeAction {
    /// Read from the source and hand the bytes to `on_read`.
    Read,
    /// Write `pending()` to the destination and report the count to `on_written`.
    Write,
    /// Shut the write half of the destination and report it to `on_shutdown`.
    Shutdown,
    /// The direction has finished, cleanly or with an error.
    Done,
}

/// The state of one relay direction: the bytes held, whether the source has
/// ended, whether the destination's write half is shut, whether an I/O error
/// ended the direction, and every byte received and delivered so far.
pub struct PipeView {
    pub pending: Seq<u8>,
    pub eof: bool,
    pub shut: bool,
    pub failed: bool,
    pub received: Seq<u8>,
    pub delivered: Seq<u8>,
}

impl PipeView {
    pub open spec fn wf(self) -> bool {
        &&& self.received == self.delivered + self.pending
        &&& self.shut ==> self.eof && self.pending.len() == 0 && !self.failed
    }

    pub open spec fn next_action(self) -> PipeAction {
        if self.failed || self.shut {
            PipeAction::Done
        } else if self.pending.len() > 0 {
            PipeAction::Write
        } else if self.eof {
            PipeAction::Shutdown
        } else {
            PipeAction::Read
        }
    }

    /// Whether the direction is still copying: not shut and not failed.
    pub open spec fn open(self) -> bool {
        !self.failed && !self.shut
    }
}

pub struct Pipe {
    pending: Vec<u8>,
    eof: bool,
    shut: bool,
    failed: bool,
    received: Ghost<Seq<u8>>,
    delivered: Ghost<Seq<u8>>,
}

impl View for Pipe {
    type V = PipeView;

    closed spec fn view(&self) -> PipeView {
        PipeView {
            pending: self.pending@,
            eof: self.eof,
            shut: self.shut,
            failed: self.failed,
            received: self.received@,
            delivered: self.delivered@,
        }
    }
}

impl Pipe {
    /// A direction that has neither read nor written anything.
    pub fn new() -> (r: Pipe)
        ensures
            r@.wf(),
            r@.pending.len() == 0,
            !r@.eof && !r@.shut && !r@.failed,
            r@.received.len() == 0,
            r@.delivered.len() == 0,
    {
        Pipe {
            pending: Vec::new(),
            eof: false,
            shut: false,
            failed: false,
            received: Ghost(Seq::empty()),
            delivered: Ghost(Seq::empty()),
        }
    }

    pub fn next_action(&self) -> (r: PipeAction)
        ensures
            r == self@.next_action(),
    {
        if self.failed || self.shut {
            PipeAction::Done
        } else if self.pending.len() > 0 {
            PipeAction::Write
        } else if self.eof {
            PipeAction::Shutdown
        } else {
            PipeAction::Read
        }
    }

    /// The bytes read and not yet written.
    pub fn pending(&self) -> (r: &[u8])
        ensures
            r@ == self@.pending,
    {
        self.pending.as_slice()
    }

    /// Takes the bytes of one read of the source; an empty read is the end of
    /// the source. After the end, or once the direction has finished, reads
    /// are ignored.
    pub fn on_read(&mut self, data: &[u8])
        requires
            old(self)@.wf(),
        ensures
            final(self)@.wf(),
            !old(self)@.open() || old(self)@.eof ==> final(self)@ == old(self)@,
            old(self)@.open() && !old(self)@.eof && data@.len() == 0 ==> final(self)@ == (PipeView {
                eof: true,
                ..old(self)@
            }),
            old(self)@.open() && !old(self)@.eof && data@.len() > 0 ==> final(self)@ == (PipeView {
                pending: old(self)@.pending + data@,
                received: old(self)@.received + data@,
                ..old(self)@
            }),
    {
        if self.failed || self.shut || self.eof {
            return;
        }
        if data.len() == 0 {
            self.eof = true;
            return;
        }
        let ghost v0 = self@;
        let ghost p0 = self.pending@;
        let mut i: usize = 0;
        while i < data.len()
            invariant
                v0.wf(),
                p0 == v0.pending,
                self@ == (PipeView { pending: self.pending@, ..v0 }),
                i <= data@.len(),
                self.pending@ == p0 + data@.subrange(0, i as int),
            decreases data@.len() - i,
        {
            self.pending.push(data[i]);
            i = i + 1;
            proof {
                assert(self.pending@ =~= p0 + data@.subrange(0, i as int));
            }
        }
        proof {
            assert(data@.subrange(0, data@.len() as int) =~= data@);
            self.received@ = self.received@ + data@;
            assert(self.received@ =~= self.delivered@ + self.pending@);
        }
    }

    /// Takes the count of bytes that one write of `pending()` accepted.
    pub fn on_written(&mut self, n: usize)
        requires
            old(self)@.wf(),
            n <= old(self)@.pending.len(),
        ensures
            final(self)@.wf(),
            final(self)@ == (PipeView {
                pending: old(self)@.pending.subrange(n as int, old(self)@.pending.len() as int),
                delivered: old(self)@.delivered + old(self)@.pending.subrange(0, n as int),
                ..old(self)@
            }),
    {
        let ghost p0 = self.pending@;
        let rest = self.pending.split_off(n);
        self.pending = rest;
        proof {
            self.delivered@ = self.delivered@ + p0.subrange(0, n as int);
            assert(p0 =~= p0.subrange(0, n as int) + p0.subrange(n as int, p0.len() as int));
            assert(self.received@ =~= self.delivered@ + self.pending@);
        }
    }

    /// Records that the destination's write half was shut, when that is what
    /// `next_action` asked for; otherwise nothing changes.
    pub fn on_shutdown(&mut self)
        requires
            old(self)@.wf(),
        ensures
            final(self)@.wf(),
            old(self)@.next_action() == PipeAction::Shutdown ==> final(self)@ == (PipeView {
                shut: true,
                ..old(self)@
            }),
            old(self)@.next_action() != PipeAction::Shutdown ==> final(self)@ == old(self)@,
    {
        if !self.failed && !self.shut && self.pending.len() == 0 && self.eof {
            self.shut = true;
        }
    }

    /// Records an I/O error on either socket: the direction ends at once.
    pub fn on_error(&mut self)
        requires
            old(self)@.wf(),
        ensures
            final(self)@.wf(),
            old(self)@.shut ==> final(self)@ == old(self)@,
            !old(self)@.shut ==> final(self)@ == (PipeView { failed: true, ..old(self)@ }),
    {
        if !self.shut {
            self.failed = true;
        }
    }

    /// Whether the direction ended cleanly, with the destination's write half shut.
    pub fn is_closed(&self) -> (r: bool)
        ensures
            r == self@.shut,
    {
        self.shut
    }

    /// Whether an I/O error ended the direction.
    pub fn has_failed(&self) -> (r: bool)
        ensures
            r == self@.failed,
    {
        self.failed
    }
}

/// What a direction has delivered is always what it received, cut short by
/// at most the bytes it still holds: no byte is altered, dropped or reordered.
pub proof fn lemma_delivered_in_order(v: PipeView)
    requires
        v.wf(),
    ensures
        v.delivered.len() <= v.received.len(),
        v.delivered == v.received.subrange(0, v.delivered.len() as int),
{
    assert(v.received.subrange(0, v.delivered.len() as int) =~= v.delivered);
}

/// The write half is shut only once every byte that was read has been
/// written: the peer receives all the data before the end of the stream.
pub proof fn lemma_shutdown_after_drain(v: PipeView)
    requires
        v.wf(),
        v.next_action() == PipeAction::Shutdown || v.shut,
    ensures
        v.delivered == v.received,
        v.eof,
{
    assert(v.pending =~= Seq::<u8>::empty());
    assert(v.delivered + v.pending =~= v.delivered);
}

} // verus!
