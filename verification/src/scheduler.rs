//! The scheduling policy interface and the round-robin policy.
//!
//! A policy only ever sees thread identifiers. Its mathematical state is an
//! associated type, and every operation is described by a spec function on
//! that state, so that code written against the interface can say exactly
//! what it leaves behind whichever policy is plugged in.

use vstd::prelude::*;
use std::collections::VecDeque;
use crate::Tid;

verus! {

/// `s` with every occurrence of `tid` taken out, the others in their order.
pub open spec fn without(s: Seq<Tid>, tid: Tid) -> Seq<Tid>
    decreases s.len(),
{
    if s.len() == 0 {
        s
    } else if s.last() == tid {
        without(s.drop_last(), tid)
    } else {
        without(s.drop_last(), tid).push(s.last())
    }
}

/// What is left after taking `tid` out: exactly the other members, no more
/// often than before.
pub proof fn lemma_without_members(s: Seq<Tid>, tid: Tid)
    ensures
        !without(s, tid).contains(tid),
        forall|x: Tid| x != tid ==> (#[trigger] without(s, tid).contains(x) <==> s.contains(x)),
        s.no_duplicates() ==> without(s, tid).no_duplicates(),
        without(s, tid).len() <= s.len(),
    decreases s.len(),
{
    if s.len() > 0 {
        let init = s.drop_last();
        let rest = without(init, tid);
        lemma_without_members(init, tid);
        assert(s =~= init.push(s.last()));
        assert forall|x: Tid| x != tid && s.contains(x) implies #[trigger] without(s, tid).contains(
            x,
        ) by {
            let i = choose|i: int| 0 <= i < s.len() && s[i] == x;
            if i < s.len() - 1 {
                assert(rest.contains(x));
                let j = choose|j: int| 0 <= j < rest.len() && rest[j] == x;
                assert(without(s, tid)[j] == x);
            } else {
                assert(rest.push(x)[rest.len() as int] == x);
            }
        }
        assert forall|x: Tid| x != tid && without(s, tid).contains(x) implies s.contains(x) by {
            let i = choose|i: int| 0 <= i < without(s, tid).len() && without(s, tid)[i] == x;
            if i < rest.len() {
                assert(rest.contains(x));
            }
        }
        if s.no_duplicates() && s.last() != tid {
            assert(!rest.contains(s.last()));
        }
    }
}

/// Taking out an identifier that is not there changes nothing.
pub proof fn lemma_without_absent(s: Seq<Tid>, tid: Tid)
    requires
        !s.contains(tid),
    ensures
        without(s, tid) == s,
    decreases s.len(),
{
    if s.len() > 0 {
        lemma_without_absent(s.drop_last(), tid);
    }
}

/// Members and distinctness of an ordering after one insertion.
pub proof fn lemma_insert_members(s: Seq<Tid>, i: int, tid: Tid)
    requires
        0 <= i <= s.len(),
    ensures
        forall|x: Tid| #[trigger] s.insert(i, tid).contains(x) <==> (x == tid || s.contains(x)),
        s.no_duplicates() && !s.contains(tid) ==> s.insert(i, tid).no_duplicates(),
{
    let t = s.insert(i, tid);
    assert forall|x: Tid| s.contains(x) implies #[trigger] t.contains(x) by {
        let j = choose|j: int| 0 <= j < s.len() && s[j] == x;
        if j < i {
            assert(t[j] == x);
        } else {
            assert(t[j + 1] == x);
        }
    }
    assert(t[i] == tid);
}

/// Members and distinctness of an ordering after its head is taken.
pub proof fn lemma_drop_first_members(s: Seq<Tid>)
    requires
        s.len() > 0,
        s.no_duplicates(),
    ensures
        s.drop_first().no_duplicates(),
        !s.drop_first().contains(s[0]),
        forall|x: Tid| x != s[0] ==> (#[trigger] s.drop_first().contains(x) <==> s.contains(x)),
{
    let t = s.drop_first();
    assert forall|x: Tid| x != s[0] && s.contains(x) implies #[trigger] t.contains(x) by {
        let j = choose|j: int| 0 <= j < s.len() && s[j] == x;
        assert(t[j - 1] == x);
    }
}

/// What a scheduling policy must offer: to take a thread into the ready
/// ordering, to hand out the next thread to run, to account one tick of
/// processor time to a running thread, and to drop a thread from the ordering.
///
/// The policy's mathematical state is `State`; `ready` reads the ready
/// ordering off it, the next thread to run first. The four `*ed` functions
/// give the state after each operation, and the four lemmas say what every
/// policy owes to the ready ordering.
pub trait Scheduler: Sized {
    /// Mathematical state of the policy.
    type State;

    /// The private representation is consistent.
    spec fn wf(&self) -> bool;

    /// The mathematical state that `self` stands for.
    spec fn state(&self) -> Self::State;

    /// The ready ordering, the next thread to run first.
    spec fn ready(s: Self::State) -> Seq<Tid>;

    /// The state after `tid` was enqueued.
    spec fn enqueued(s: Self::State, tid: Tid) -> Self::State;

    /// The state after the head of a non-empty ready ordering was dequeued.
    spec fn dequeued(s: Self::State) -> Self::State;

    /// Whether one more tick uses up the quantum of `tid`.
    spec fn expired(s: Self::State, tid: Tid) -> bool;

    /// The state after one tick was accounted to `tid`.
    spec fn ticked(s: Self::State, tid: Tid) -> Self::State;

    /// The state after `tid` was dropped.
    spec fn removed(s: Self::State, tid: Tid) -> Self::State;

    /// Enqueueing inserts the thread at one place and moves nothing else.
    proof fn lemma_enqueued(s: Self::State, tid: Tid)
        ensures
            exists|i: int|
                0 <= i <= Self::ready(s).len() && Self::ready(Self::enqueued(s, tid))
                    == #[trigger] Self::ready(s).insert(i, tid),
    ;

    /// Dequeueing takes the head and leaves the rest in order.
    proof fn lemma_dequeued(s: Self::State)
        requires
            Self::ready(s).len() > 0,
        ensures
            Self::ready(Self::dequeued(s)) == Self::ready(s).drop_first(),
    ;

    /// Accounting a tick does not touch the ready ordering.
    proof fn lemma_ticked(s: Self::State, tid: Tid)
        ensures
            Self::ready(Self::ticked(s, tid)) == Self::ready(s),
    ;

    /// Dropping a thread takes it out of the ready ordering and moves nothing
    /// else.
    proof fn lemma_removed(s: Self::State, tid: Tid)
        ensures
            Self::ready(Self::removed(s, tid)) == without(Self::ready(s), tid),
    ;

    /// Inserts `tid` into the ready ordering.
    fn enqueue(&mut self, tid: Tid)
        requires
            old(self).wf(),
        ensures
            final(self).wf(),
            final(self).state() == Self::enqueued(old(self).state(), tid),
    ;

    /// Removes and returns the next thread to run; `None` exactly when the
    /// ready ordering is empty, and then nothing changes.
    fn dequeue(&mut self) -> (next: Option<Tid>)
        requires
            old(self).wf(),
        ensures
            final(self).wf(),
            Self::ready(old(self).state()).len() == 0 ==> next is None && final(self).state()
                == old(self).state(),
            Self::ready(old(self).state()).len() > 0 ==> next == Some(
                Self::ready(old(self).state())[0],
            ) && final(self).state() == Self::dequeued(old(self).state()),
    ;

    /// Accounts one tick of processor time to the running thread `tid` and
    /// tells whether its quantum is used up, so that it should yield.
    fn tick(&mut self, tid: Tid) -> (used_up: bool)
        requires
            old(self).wf(),
        ensures
            final(self).wf(),
            used_up == Self::expired(old(self).state(), tid),
            final(self).state() == Self::ticked(old(self).state(), tid),
    ;

    /// Drops `tid` from the policy: it leaves the ready ordering if it was
    /// there.
    fn remove(&mut self, tid: Tid)
        requires
            old(self).wf(),
        ensures
            final(self).wf(),
            final(self).state() == Self::removed(old(self).state(), tid),
    ;
}

/// Mathematical state of the round-robin policy.
#[verifier::ext_equal]
pub struct RRState {
    /// The ready ordering, first in first out.
    pub ready: Seq<Tid>,
    /// Ticks a thread may run before it must yield.
    pub quantum: nat,
    /// The thread that was handed out last and still holds a time slice.
    pub current: Option<Tid>,
    /// Ticks left in the slice of `current`.
    pub left: nat,
}

impl RRState {
    /// `tid` joins at the tail.
    pub open spec fn enqueue(self, tid: Tid) -> RRState {
        RRState { ready: self.ready.push(tid), ..self }
    }

    /// The head leaves the ordering and starts a full slice.
    pub open spec fn dequeue(self) -> RRState {
        RRState {
            ready: self.ready.drop_first(),
            current: Some(self.ready[0]),
            left: self.quantum,
            ..self
        }
    }

    /// A thread that holds no slice, or whose slice has at most one tick left,
    /// must yield at the next tick.
    pub open spec fn expired(self, tid: Tid) -> bool {
        self.current != Some(tid) || self.left <= 1
    }

    /// One tick less for the thread that holds the slice; a full quantum
    /// again once the slice is used up. A thread that holds no slice changes
    /// nothing.
    pub open spec fn tick(self, tid: Tid) -> RRState {
        if self.current != Some(tid) {
            self
        } else if self.left <= 1 {
            RRState { left: self.quantum, ..self }
        } else {
            RRState { left: (self.left - 1) as nat, ..self }
        }
    }

    /// `tid` leaves the ordering and gives up its slice.
    pub open spec fn remove(self, tid: Tid) -> RRState {
        RRState {
            ready: without(self.ready, tid),
            current: if self.current == Some(tid) {
                None
            } else {
                self.current
            },
            ..self
        }
    }

    /// The state after `n` turns in each of which the head is dequeued and
    /// put back at once.
    pub open spec fn cycle(self, n: nat) -> RRState
        decreases n,
    {
        if n == 0 {
            self
        } else {
            let before = self.cycle((n - 1) as nat);
            before.dequeue().enqueue(before.ready[0])
        }
    }

    /// The state after `n` ticks in a row were accounted to `tid`.
    pub open spec fn ticks(self, tid: Tid, n: nat) -> RRState
        decreases n,
    {
        if n == 0 {
            self
        } else {
            self.ticks(tid, (n - 1) as nat).tick(tid)
        }
    }

    /// The threads handed out during the first `n` such turns, in order.
    pub open spec fn served(self, n: nat) -> Seq<Tid>
        decreases n,
    {
        if n == 0 {
            Seq::empty()
        } else {
            self.served((n - 1) as nat).push(self.cycle((n - 1) as nat).ready[0])
        }
    }
}

impl RRState {
    /// While no thread arrives, the first `n` turns serve the first `n`
    /// threads of the ready ordering in their order, and leave the ordering
    /// rotated by `n` places.
    pub proof fn lemma_turns(self, n: nat)
        requires
            n <= self.ready.len(),
        ensures
            self.served(n) == self.ready.take(n as int),
            self.cycle(n).ready == self.ready.skip(n as int) + self.ready.take(n as int),
            self.cycle(n).quantum == self.quantum,
        decreases n,
    {
        if n > 0 {
            self.lemma_turns((n - 1) as nat);
        }
    }

    /// A turn lasts one quantum: for a thread that starts a full slice, the
    /// tick that ends the turn is the one that completes the quantum, and
    /// none before it. The ticks leave the ready ordering alone.
    pub proof fn lemma_slice(self, tid: Tid, n: nat)
        requires
            self.current == Some(tid),
            self.left == self.quantum,
            n < self.quantum,
        ensures
            self.ticks(tid, n).current == Some(tid),
            self.ticks(tid, n).quantum == self.quantum,
            self.ticks(tid, n).left == self.quantum - n,
            self.ticks(tid, n).ready == self.ready,
            self.ticks(tid, n).expired(tid) <==> n + 1 == self.quantum,
        decreases n,
    {
        if n > 0 {
            self.lemma_slice(tid, (n - 1) as nat);
        }
    }

    /// Once the quantum is used up, the next turn starts with a full slice
    /// again.
    pub proof fn lemma_slice_reset(self, tid: Tid)
        requires
            self.current == Some(tid),
            self.left == self.quantum,
            self.quantum > 0,
        ensures
            self.ticks(tid, self.quantum).left == self.quantum,
            self.ticks(tid, self.quantum).current == Some(tid),
    {
        self.lemma_slice(tid, (self.quantum - 1) as nat);
    }

    /// Round-robin is fair: with `N` distinct threads ready and none
    /// arriving, `N` turns serve every one of them exactly once, in the
    /// order in which they waited, and leave the ready ordering as it was.
    pub proof fn lemma_fair(self)
        requires
            self.ready.no_duplicates(),
        ensures
            self.served(self.ready.len()) == self.ready,
            self.served(self.ready.len()).no_duplicates(),
            forall|tid: Tid|
                self.ready.contains(tid) <==> #[trigger] self.served(self.ready.len()).contains(
                    tid,
                ),
            self.cycle(self.ready.len()).ready == self.ready,
    {
        let n = self.ready.len();
        self.lemma_turns(n);
    }
}

/// Round-robin policy: a first-in-first-out ready ordering and a fixed quantum
/// of ticks per turn.
#[derive(Debug)]
pub struct RRScheduler {
    queue: VecDeque<Tid>,
    quantum: usize,
    current: Option<Tid>,
    left: usize,
}

impl View for RRScheduler {
    type V = RRState;

    closed spec fn view(&self) -> RRState {
        RRState {
            ready: self.queue@,
            quantum: self.quantum as nat,
            current: self.current,
            left: self.left as nat,
        }
    }
}

impl RRScheduler {
    /// A policy with nothing ready, in which every turn lasts `quantum`
    /// ticks.
    pub fn new(quantum: usize) -> (rr: RRScheduler)
        ensures
            rr.wf(),
            rr@ == (RRState {
                ready: Seq::empty(),
                quantum: quantum as nat,
                current: None,
                left: quantum as nat,
            }),
    {
        RRScheduler { queue: VecDeque::new(), quantum, current: None, left: quantum }
    }

    /// Number of threads in the ready ordering.
    pub fn len(&self) -> (n: usize)
        ensures
            n == self@.ready.len(),
    {
        self.queue.len()
    }

    /// The quantum the policy was made with.
    pub fn quantum(&self) -> (q: usize)
        ensures
            q == self@.quantum,
    {
        self.quantum
    }
}

impl Scheduler for RRScheduler {
    type State = RRState;

    closed spec fn wf(&self) -> bool {
        self.left <= self.quantum
    }

    open spec fn state(&self) -> RRState {
        self@
    }

    open spec fn ready(s: RRState) -> Seq<Tid> {
        s.ready
    }

    open spec fn enqueued(s: RRState, tid: Tid) -> RRState {
        s.enqueue(tid)
    }

    open spec fn dequeued(s: RRState) -> RRState {
        s.dequeue()
    }

    open spec fn expired(s: RRState, tid: Tid) -> bool {
        s.expired(tid)
    }

    open spec fn ticked(s: RRState, tid: Tid) -> RRState {
        s.tick(tid)
    }

    open spec fn removed(s: RRState, tid: Tid) -> RRState {
        s.remove(tid)
    }

    proof fn lemma_enqueued(s: RRState, tid: Tid) {
        let at = s.ready.len() as int;
        assert(Self::ready(Self::enqueued(s, tid)) == Self::ready(s).insert(at, tid));
    }

    proof fn lemma_dequeued(s: RRState) {
    }

    proof fn lemma_ticked(s: RRState, tid: Tid) {
    }

    proof fn lemma_removed(s: RRState, tid: Tid) {
    }

    fn enqueue(&mut self, tid: Tid) {
        self.queue.push_back(tid);
    }

    fn dequeue(&mut self) -> (next: Option<Tid>) {
        let next = self.queue.pop_front();
        if let Some(tid) = next {
            self.current = Some(tid);
            self.left = self.quantum;
        }
        next
    }

    fn tick(&mut self, tid: Tid) -> (used_up: bool) {
        let holds = match self.current {
            Some(c) => c == tid,
            None => false,
        };
        if !holds {
            true
        } else if self.left <= 1 {
            self.left = self.quantum;
            true
        } else {
            self.left = self.left - 1;
            false
        }
    }

    fn remove(&mut self, tid: Tid) {
        let n: usize = self.queue.len();
        let mut kept: VecDeque<Tid> = VecDeque::new();
        let mut i: usize = 0;
        while i < n
            invariant
                n == self.queue@.len(),
                i <= n,
                kept@ == without(self.queue@.take(i as int), tid),
                self.queue@ == old(self).queue@,
                self.quantum == old(self).quantum,
                self.current == old(self).current,
                self.left == old(self).left,
            decreases n - i,
        {
            let t: Tid = self.queue[i];
            assert(self.queue@.take(i + 1).drop_last() =~= self.queue@.take(i as int));
            if t != tid {
                kept.push_back(t);
            }
            i = i + 1;
        }
        assert(self.queue@.take(n as int) =~= self.queue@);
        self.queue = kept;
        let gives_up = match self.current {
            Some(c) => c == tid,
            None => false,
        };
        if gives_up {
            self.current = None;
        }
    }
}

} // verus!
