//! A fair scheduler over a dynamically sized set of accept sources.
//!
//! Each pass polls the live sources in rotation, starting at a cursor: the
//! first source that yields a connection ends the pass, and the cursor moves
//! past it. Sources that report exhaustion are removed when the pass ends.
//! The caller polls the sources; this type decides which one is polled next
//! and what a pass delivers.
use vstd::prelude::*;

verus! {

/// What polling one source gave.
#[derive(Clone, Copy, Debug, PartialEq, Eq, Structural)]
pub enum SourcePoll {
    /// The source delivered an item (a connection, or an accept error).
    Ready,
    /// The source has nothing now.
    NotReady,
    /// The source is permanently closed.
    Exhausted,
}

/// What the scheduler asks of its caller after a report.
#[derive(Clone, Copy, Debug, PartialEq, Eq, Structural)]
pub enum Step {
    /// The item just polled from this source is the pass's output.
    Emit(usize),
    /// Poll this source next, in the same pass.
    Poll(usize),
    /// No source was ready: wait for a wake-up and start a new pass.
    NotReady,
    /// Every source is exhausted: the aggregate stream is complete.
    Finished,
}

/// The scheduler's state: the live source ids in rotation order, which of
/// them reported exhaustion in the current pass, the cursor where the pass
/// started, and how many sources the pass has polled.
pub struct SelectView {
    pub live: Seq<usize>,
    pub dead: Seq<bool>,
    pub cursor: nat,
    pub polled: nat,
}

impl SelectView {
    pub open spec fn wf(self) -> bool {
        &&& self.dead.len() == self.live.len()
        &&& self.live.len() == 0 ==> self.cursor == 0 && self.polled == 0
        &&& self.live.len() > 0 ==> self.cursor < self.live.len() && self.polled < self.live.len()
        &&& self.polled == 0 ==> forall|i: int| 0 <= i < self.dead.len() ==> !self.dead[i]
    }

    /// The position in `live` of the source to poll next.
    pub open spec fn position(self) -> nat {
        ((self.cursor + self.polled) as int % (self.live.len() as int)) as nat
    }
}

/// The ids of `live` whose `dead` flag is not set, in order.
pub open spec fn survivors(live: Seq<usize>, dead: Seq<bool>) -> Seq<usize>
    decreases live.len(),
{
    if live.len() == 0 {
        Seq::empty()
    } else {
        let k = live.len() - 1;
        let rest = survivors(live.take(k), dead.take(k));
        if dead[k] {
            rest
        } else {
            rest.push(live[k])
        }
    }
}

/// Ends a pass: exhausted sources leave, and the cursor goes to the first
/// surviving source at or after position `p` in rotation order.
pub open spec fn finish(v: SelectView, p: nat) -> SelectView {
    let live = survivors(v.live, v.dead);
    let before = survivors(v.live.take(p as int), v.dead.take(p as int)).len();
    SelectView {
        live,
        dead: Seq::new(live.len(), |i: int| false),
        cursor: if live.len() == 0 { 0 } else { before % live.len() },
        polled: 0,
    }
}

/// The step and the next state after the source at `v.position()` reported `o`.
pub open spec fn report_spec(v: SelectView, o: SourcePoll) -> (Step, SelectView) {
    let n = v.live.len();
    if n == 0 {
        (Step::Finished, v)
    } else {
        let pos = v.position();
        match o {
            SourcePoll::Ready => (Step::Emit(v.live[pos as int]), finish(v, ((pos + 1) as int % (n as int)) as nat)),
            _ => {
                let v1 = SelectView {
                    dead: if o is Exhausted { v.dead.update(pos as int, true) } else { v.dead },
                    polled: v.polled + 1,
                    ..v
                };
                if v1.polled < n {
                    (Step::Poll(v1.live[v1.position() as int]), v1)
                } else {
                    let v2 = finish(v1, v.cursor);
                    if v2.live.len() == 0 {
                        (Step::Finished, v2)
                    } else {
                        (Step::NotReady, v2)
                    }
                }
            },
        }
    }
}

pub struct Select {
    live: Vec<usize>,
    dead: Vec<bool>,
    cursor: usize,
    polled: usize,
}

impl View for Select {
    type V = SelectView;

    closed spec fn view(&self) -> SelectView {
        SelectView {
            live: self.live@,
            dead: self.dead@,
            cursor: self.cursor as nat,
            polled: self.polled as nat,
        }
    }
}

/// A scheduler over sources `0..n`, with the cursor at source 0.
pub fn select_all(n: usize) -> (r: Select)
    ensures
        r@.wf(),
        r@.live == Seq::new(n as nat, |i: int| i as usize),
        r@.cursor == 0,
        r@.polled == 0,
{
    let mut live: Vec<usize> = Vec::new();
    let mut dead: Vec<bool> = Vec::new();
    let mut i: usize = 0;
    while i < n
        invariant
            i <= n,
            live@ == Seq::new(i as nat, |j: int| j as usize),
            dead@ == Seq::new(i as nat, |j: int| false),
        decreases n - i,
    {
        live.push(i);
        dead.push(false);
        i = i + 1;
        proof {
            assert(live@ =~= Seq::new(i as nat, |j: int| j as usize));
            assert(dead@ =~= Seq::new(i as nat, |j: int| false));
        }
    }
    Select { live, dead, cursor: 0, polled: 0 }
}

impl Select {
    /// The source that the caller polls next, or `None` when none is live.
    pub fn poll_target(&self) -> (r: Option<usize>)
        requires
            self@.wf(),
        ensures
            self@.live.len() == 0 ==> r is None,
            self@.live.len() > 0 ==> r == Some(self@.live[self@.position() as int]),
    {
        if self.live.len() == 0 {
            None
        } else {
            Some(self.live[rotate(self.cursor, self.polled, self.live.len())])
        }
    }

    /// The number of live sources.
    pub fn live_count(&self) -> (r: usize)
        ensures
            r == self@.live.len(),
    {
        self.live.len()
    }

    fn finish_pass(&mut self, p: usize)
        requires
            old(self)@.dead.len() == old(self)@.live.len(),
            p < old(self)@.live.len(),
        ensures
            final(self)@ == finish(old(self)@, p as nat),
    {
        let n = self.live.len();
        let ghost v = self@;
        let mut live: Vec<usize> = Vec::new();
        let mut before: usize = 0;
        let mut i: usize = 0;
        while i < n
            invariant
                n == v.live.len(),
                v.dead.len() == n,
                self@ == v,
                p < n,
                i <= n,
                live@ == survivors(v.live.take(i as int), v.dead.take(i as int)),
                i > p ==> before == survivors(v.live.take(p as int), v.dead.take(p as int)).len(),
            decreases n - i,
        {
            if i == p {
                before = live.len();
            }
            proof {
                let ti = (i + 1) as int;
                assert(v.live.take(ti).take(i as int) =~= v.live.take(i as int));
                assert(v.dead.take(ti).take(i as int) =~= v.dead.take(i as int));
            }
            if !self.dead[i] {
                live.push(self.live[i]);
            }
            i = i + 1;
        }
        proof {
            assert(v.live.take(n as int) =~= v.live);
            assert(v.dead.take(n as int) =~= v.dead);
        }
        let m = live.len();
        let mut dead: Vec<bool> = Vec::new();
        let mut j: usize = 0;
        while j < m
            invariant
                j <= m,
                dead@ == Seq::new(j as nat, |k: int| false),
            decreases m - j,
        {
            dead.push(false);
            j = j + 1;
            proof {
                assert(dead@ =~= Seq::new(j as nat, |k: int| false));
            }
        }
        self.live = live;
        self.dead = dead;
        self.cursor = if m == 0 { 0 } else { before % m };
        self.polled = 0;
    }

    /// Takes what polling the source at `poll_target` gave, and says what
    /// the caller does next.
    pub fn report(&mut self, o: SourcePoll) -> (r: Step)
        requires
            old(self)@.wf(),
        ensures
            final(self)@.wf(),
            (r, final(self)@) == report_spec(old(self)@, o),
    {
        let n = self.live.len();
        if n == 0 {
            return Step::Finished;
        }
        let pos = rotate(self.cursor, self.polled, n);
        match o {
            SourcePoll::Ready => {
                let id = self.live[pos];
                let next = (pos + 1) % n;
                self.finish_pass(next);
                proof { lemma_finish_wf(old(self)@, next as nat); }
                Step::Emit(id)
            },
            _ => {
                if o == SourcePoll::Exhausted {
                    self.dead.set(pos, true);
                }
                self.polled = self.polled + 1;
                if self.polled < n {
                    Step::Poll(self.live[rotate(self.cursor, self.polled, n)])
                } else {
                    let ghost v1 = self@;
                    let c = self.cursor;
                    self.finish_pass(c);
                    proof { lemma_finish_wf(v1, c as nat); }
                    if self.live.len() == 0 {
                        Step::Finished
                    } else {
                        Step::NotReady
                    }
                }
            },
        }
    }
}

/// `(c + k) % n`, computed without overflow.
fn rotate(c: usize, k: usize, n: usize) -> (r: usize)
    requires
        c < n,
        k < n,
    ensures
        r == (c + k) as int % (n as int),
        r < n,
{
    if c >= n - k {
        let r = c - (n - k);
        assert(r == (c + k) as int % (n as int)) by {
            vstd::arithmetic::div_mod::lemma_mod_add_multiples_vanish(r as int, n as int);
            vstd::arithmetic::div_mod::lemma_small_mod(r as nat, n as nat);
        }
        r
    } else {
        assert((c + k) as int % (n as int) == c + k) by {
            vstd::arithmetic::div_mod::lemma_small_mod((c + k) as nat, n as nat);
        }
        c + k
    }
}

proof fn lemma_finish_wf(v: SelectView, p: nat)
    ensures
        finish(v, p).wf(),
{
    let f = finish(v, p);
    if f.live.len() > 0 {
        let b = survivors(v.live.take(p as int), v.dead.take(p as int)).len();
        assert(b % f.live.len() < f.live.len()) by (nonlinear_arith)
            requires f.live.len() > 0;
    }
}

/// The steps of `k` consecutive passes in each of which the first source
/// polled is ready.
pub open spec fn all_ready_steps(v: SelectView, k: nat) -> Seq<Step>
    decreases k,
{
    if k == 0 {
        Seq::empty()
    } else {
        let (s, v2) = report_spec(v, SourcePoll::Ready);
        seq![s] + all_ready_steps(v2, (k - 1) as nat)
    }
}

proof fn lemma_survivors_all_alive(live: Seq<usize>, dead: Seq<bool>)
    requires
        dead.len() == live.len(),
        forall|i: int| 0 <= i < dead.len() ==> !dead[i],
    ensures
        survivors(live, dead) == live,
    decreases live.len(),
{
    if live.len() > 0 {
        let k = live.len() - 1;
        lemma_survivors_all_alive(live.take(k), dead.take(k));
        assert(live.take(k).push(live[k]) =~= live);
    }
}

proof fn lemma_ready_step(v: SelectView)
    requires
        v.wf(),
        v.polled == 0,
        v.live.len() > 0,
    ensures
        report_spec(v, SourcePoll::Ready) == (
            Step::Emit(v.live[v.cursor as int]),
            SelectView { cursor: ((v.cursor + 1) as int % (v.live.len() as int)) as nat, ..v },
        ),
{
    let n = v.live.len();
    vstd::arithmetic::div_mod::lemma_small_mod(v.cursor, n);
    let p = ((v.cursor + 1) as int % (n as int)) as nat;
    assert(p < n) by {
        vstd::arithmetic::div_mod::lemma_mod_bound((v.cursor + 1) as int, n as int);
    }
    lemma_survivors_all_alive(v.live, v.dead);
    lemma_survivors_all_alive(v.live.take(p as int), v.dead.take(p as int));
    vstd::arithmetic::div_mod::lemma_small_mod(p, n);
    assert(v.dead =~= Seq::new(n, |i: int| false));
}

proof fn lemma_ready_steps(v: SelectView, k: nat, i: int)
    requires
        v.wf(),
        v.polled == 0,
        v.live.len() > 0,
        0 <= i < k,
    ensures
        all_ready_steps(v, k).len() == k,
        all_ready_steps(v, k)[i] == Step::Emit(v.live[(v.cursor + i) % (v.live.len() as int)]),
    decreases k,
{
    let n = v.live.len() as int;
    lemma_ready_step(v);
    let v2 = SelectView { cursor: ((v.cursor + 1) as int % n) as nat, ..v };
    assert(v2.cursor < n) by {
        vstd::arithmetic::div_mod::lemma_mod_bound((v.cursor + 1) as int, n);
    }
    if i == 0 {
        vstd::arithmetic::div_mod::lemma_small_mod(v.cursor, n as nat);
    } else {
        lemma_ready_steps(v2, (k - 1) as nat, i - 1);
        assert((v2.cursor + (i - 1)) % n == (v.cursor + i) % n) by {
            vstd::arithmetic::div_mod::lemma_add_mod_noop((v.cursor + 1) as int, i - 1, n);
            vstd::arithmetic::div_mod::lemma_mod_twice(i - 1, n);
            vstd::arithmetic::div_mod::lemma_add_mod_noop(v2.cursor as int, i - 1, n);
            vstd::arithmetic::div_mod::lemma_mod_twice((v.cursor + 1) as int, n);
        }
    }
    if k > 1 {
        lemma_ready_steps(v2, (k - 1) as nat, 0);
    }
}

/// Fairness: while every source is ready, each live source is picked within
/// any window of as many consecutive passes as there are live sources.
pub proof fn lemma_fair_window(v: SelectView, id: usize)
    requires
        v.wf(),
        v.polled == 0,
        v.live.contains(id),
    ensures
        exists|i: int| 0 <= i < v.live.len() && all_ready_steps(v, v.live.len())[i] == Step::Emit(id),
{
    let n = v.live.len() as int;
    let j = choose|j: int| 0 <= j < n && v.live[j] == id;
    let i = if j >= v.cursor { j - v.cursor } else { j + n - v.cursor };
    lemma_ready_steps(v, n as nat, i);
    if j >= v.cursor {
        vstd::arithmetic::div_mod::lemma_small_mod(j as nat, n as nat);
    } else {
        vstd::arithmetic::div_mod::lemma_mod_add_multiples_vanish(j, n);
        vstd::arithmetic::div_mod::lemma_small_mod(j as nat, n as nat);
    }
    assert(all_ready_steps(v, n as nat)[i] == Step::Emit(id));
}

/// Every id of `survivors(live, dead)` is an id of `live`.
proof fn lemma_survivors_subset(live: Seq<usize>, dead: Seq<bool>)
    ensures
        forall|k: int|
            0 <= k < survivors(live, dead).len() ==> live.contains(#[trigger] survivors(live, dead)[k]),
    decreases live.len(),
{
    if live.len() > 0 {
        let k = live.len() - 1;
        lemma_survivors_subset(live.take(k), dead.take(k));
        let rest = survivors(live.take(k), dead.take(k));
        assert forall|a: int| 0 <= a < rest.len() implies live.contains(#[trigger] rest[a]) by {
            let b = choose|b: int| 0 <= b < k && live.take(k)[b] == rest[a];
            assert(live[b] == rest[a]);
        }
        if !dead[k] {
            assert(rest.push(live[k])[rest.len() as int] == live[k]);
        }
    }
}

/// Scheduling only ever names ids that were live: where every live id is
/// below `m`, so is every id a step names and every id that stays live.
pub proof fn lemma_report_ids(v: SelectView, o: SourcePoll, m: nat)
    requires
        v.wf(),
        forall|k: int| 0 <= k < v.live.len() ==> #[trigger] v.live[k] < m,
    ensures
        ({
            let (s, v2) = report_spec(v, o);
            &&& forall|k: int| 0 <= k < v2.live.len() ==> #[trigger] v2.live[k] < m
            &&& (s matches Step::Emit(id) ==> id < m)
            &&& (s matches Step::Poll(id) ==> id < m)
        }),
{
    let n = v.live.len();
    if n > 0 {
        assert(v.position() < n) by {
            vstd::arithmetic::div_mod::lemma_mod_bound((v.cursor + v.polled) as int, n as int);
        }
        lemma_survivors_subset(v.live, v.dead);
        let v1 = SelectView {
            dead: if o is Exhausted { v.dead.update(v.position() as int, true) } else { v.dead },
            polled: v.polled + 1,
            ..v
        };
        lemma_survivors_subset(v1.live, v1.dead);
        assert(v1.position() < n) by {
            vstd::arithmetic::div_mod::lemma_mod_bound((v1.cursor + v1.polled) as int, n as int);
        }
    }
}

} // verus!
