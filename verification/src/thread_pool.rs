//! A bounded registry of threads. The pool owns the identifier space and the
//! state of every thread; the scheduling policy it is given only orders the
//! identifiers of the threads that are ready.

use vstd::prelude::*;
use crate::scheduler::{
    lemma_drop_first_members, lemma_insert_members, lemma_without_members, Scheduler,
};
use crate::structs::{Status, Thread, ThreadView};
use crate::{ExitCode, Tid};

verus! {

/// Why a pool could not register a thread.
#[derive(Clone, Copy, Debug, PartialEq, Eq, Structural)]
pub enum PoolError {
    /// Every slot holds a live thread.
    PoolExhausted,
}

/// One slot of a pool as a mathematical value. A slot that was never used has
/// no status; one whose thread has exited keeps the exit code and no thread.
pub struct SlotView {
    pub status: Option<Status>,
    pub thread: Option<ThreadView>,
}

/// A pool as a mathematical value: its slots, indexed by thread identifier,
/// and the state of its scheduling policy.
#[verifier::ext_equal]
#[verifier::reject_recursive_types(S)]
pub struct PoolView<S: Scheduler> {
    pub slots: Seq<SlotView>,
    pub policy: S::State,
}

impl<S: Scheduler> PoolView<S> {
    /// A pool of `size` slots that were never used.
    pub open spec fn vacant(size: nat, policy: S::State) -> Self {
        PoolView { slots: Seq::new(size, |i: int| SlotView { status: None, thread: None }), policy }
    }

    /// Number of slots.
    pub open spec fn capacity(self) -> nat {
        self.slots.len()
    }

    /// State of the thread registered under `tid`; `None` for a slot that was
    /// never used and for an identifier beyond the slots.
    pub open spec fn status(self, tid: Tid) -> Option<Status> {
        if tid < self.slots.len() {
            self.slots[tid as int].status
        } else {
            None
        }
    }

    /// The thread registered under `tid`, while it is live.
    pub open spec fn thread(self, tid: Tid) -> Option<ThreadView> {
        if tid < self.slots.len() {
            self.slots[tid as int].thread
        } else {
            None
        }
    }

    /// The ready ordering of the policy.
    pub open spec fn ready(self) -> Seq<Tid> {
        S::ready(self.policy)
    }

    /// `tid` names a thread that is ready, running or sleeping.
    pub open spec fn is_live(self, tid: Tid) -> bool {
        match self.status(tid) {
            Some(status) => status.is_live(),
            None => false,
        }
    }

    /// Number of live threads among the first `n` slots.
    pub open spec fn live_below(self, n: nat) -> nat
        decreases n,
    {
        if n == 0 {
            0
        } else {
            self.live_below((n - 1) as nat) + if self.is_live((n - 1) as Tid) {
                1nat
            } else {
                0nat
            }
        }
    }

    /// Number of live threads.
    pub open spec fn occupancy(self) -> nat {
        self.live_below(self.slots.len())
    }

    /// `tid` names a slot that a new thread may take.
    pub open spec fn is_free(self, tid: Tid) -> bool {
        tid < self.slots.len() && !self.is_live(tid)
    }

    /// `tid` names the free slot with the least identifier.
    pub open spec fn is_first_free(self, tid: Tid) -> bool {
        self.is_free(tid) && forall|below: Tid| below < tid ==> !self.is_free(below)
    }

    /// The free slot with the least identifier, if any slot is free.
    pub open spec fn first_free(self) -> Option<Tid> {
        if exists|tid: Tid| self.is_first_free(tid) {
            Some(choose|tid: Tid| self.is_first_free(tid))
        } else {
            None
        }
    }

    /// The pool's invariant: the ready ordering holds exactly the threads
    /// whose state is ready, each once; a slot holds a thread exactly while
    /// that thread is live, and the thread knows its identifier.
    pub open spec fn wf(self) -> bool {
        &&& self.ready().no_duplicates()
        &&& forall|tid: Tid|
            #![trigger self.ready().contains(tid)]
            #![trigger self.status(tid)]
            self.ready().contains(tid) <==> self.status(tid) == Some(Status::Ready)
        &&& forall|tid: Tid| #[trigger] self.thread(tid) is Some <==> self.is_live(tid)
        &&& forall|tid: Tid| #[trigger]
            self.thread(tid) is Some ==> self.thread(tid)->0.tid == Some(tid)
    }

    /// The slots with the state of `tid` replaced.
    pub open spec fn put(self, tid: Tid, status: Status) -> Seq<SlotView> {
        self.slots.update(
            tid as int,
            SlotView { status: Some(status), thread: self.slots[tid as int].thread },
        )
    }

    /// The pool after `add`: the thread takes the first free slot, ready and
    /// enqueued; a full pool stays as it is.
    pub open spec fn add(self, thread: ThreadView) -> Self {
        match self.first_free() {
            Some(tid) => PoolView {
                slots: self.slots.update(
                    tid as int,
                    SlotView { status: Some(Status::Ready), thread: Some(thread.registered(tid)) },
                ),
                policy: S::enqueued(self.policy, tid),
            },
            None => self,
        }
    }

    /// The thread that `acquire` hands out: the head of the ready ordering.
    pub open spec fn next(self) -> Option<Tid> {
        if self.ready().len() > 0 {
            Some(self.ready()[0])
        } else {
            None
        }
    }

    /// The pool after `acquire`: the head of the ready ordering is dequeued
    /// and running.
    pub open spec fn acquire(self) -> Self {
        match self.next() {
            Some(tid) => PoolView {
                slots: self.put(tid, Status::Running),
                policy: S::dequeued(self.policy),
            },
            None => self,
        }
    }

    /// Whether a tick accounted to `tid` ends its turn: it is running and
    /// the policy finds its quantum used up.
    pub open spec fn preempts(self, tid: Tid) -> bool {
        self.status(tid) == Some(Status::Running) && S::expired(self.policy, tid)
    }

    /// The pool after `tick`: the policy accounts the tick to a running
    /// thread, and a thread whose quantum is used up is ready and enqueued
    /// again. A thread that is not running changes nothing.
    pub open spec fn tick(self, tid: Tid) -> Self {
        if self.status(tid) != Some(Status::Running) {
            self
        } else if S::expired(self.policy, tid) {
            PoolView {
                slots: self.put(tid, Status::Ready),
                policy: S::enqueued(S::ticked(self.policy, tid), tid),
            }
        } else {
            PoolView { slots: self.slots, policy: S::ticked(self.policy, tid) }
        }
    }

    /// The pool after `requeue`: a running thread is ready and enqueued
    /// again; any other changes nothing.
    pub open spec fn requeue(self, tid: Tid) -> Self {
        if self.status(tid) == Some(Status::Running) {
            PoolView {
                slots: self.put(tid, Status::Ready),
                policy: S::enqueued(self.policy, tid),
            }
        } else {
            self
        }
    }

    /// The pool after `exit`: a ready or running thread has exited with
    /// `code`, has left the policy and has given up its slot; any other
    /// changes nothing.
    pub open spec fn exit(self, tid: Tid, code: ExitCode) -> Self {
        if self.status(tid) == Some(Status::Ready) || self.status(tid) == Some(Status::Running) {
            PoolView {
                slots: self.slots.update(
                    tid as int,
                    SlotView { status: Some(Status::Exited(code)), thread: None },
                ),
                policy: S::removed(self.policy, tid),
            }
        } else {
            self
        }
    }

    /// The pool after `sleep_remove`: a ready or running thread sleeps and
    /// has left the policy, its slot kept; any other changes nothing.
    pub open spec fn sleep_remove(self, tid: Tid) -> Self {
        if self.status(tid) == Some(Status::Ready) || self.status(tid) == Some(Status::Running) {
            PoolView {
                slots: self.put(tid, Status::Sleeping),
                policy: S::removed(self.policy, tid),
            }
        } else {
            self
        }
    }

    /// The pool after `wake_up`: a sleeping thread is ready and enqueued;
    /// any other changes nothing.
    pub open spec fn wake_up(self, tid: Tid) -> Self {
        if self.status(tid) == Some(Status::Sleeping) {
            PoolView {
                slots: self.put(tid, Status::Ready),
                policy: S::enqueued(self.policy, tid),
            }
        } else {
            self
        }
    }

    /// At most one slot is the first free one.
    pub proof fn lemma_first_free(self, tid: Tid)
        requires
            self.is_first_free(tid),
        ensures
            self.first_free() == Some(tid),
    {
    }

    /// A pool with no first free slot has no free slot at all.
    pub proof fn lemma_no_free(self)
        requires
            self.first_free() is None,
        ensures
            forall|tid: Tid| !self.is_free(tid),
    {
        assert forall|tid: Tid| !self.is_free(tid) by {
            if self.is_free(tid) {
                self.lemma_least_free(tid);
            }
        }
    }

    /// Below every free slot there is a first one.
    proof fn lemma_least_free(self, tid: Tid)
        requires
            self.is_free(tid),
        ensures
            exists|first: Tid| self.is_first_free(first),
        decreases tid,
    {
        if exists|below: Tid| below < tid && self.is_free(below) {
            let below = choose|below: Tid| below < tid && self.is_free(below);
            self.lemma_least_free(below);
        } else {
            assert(self.is_first_free(tid));
        }
    }

    /// The invariant carries over a step that changes one slot, provided that
    /// the slot stays consistent and the ready ordering follows its state.
    proof fn lemma_slot(self, after: Self, tid: Tid)
        requires
            self.wf(),
            tid < self.slots.len(),
            after.slots.len() == self.slots.len(),
            forall|x: Tid|
                x != tid ==> #[trigger] after.status(x) == self.status(x) && after.thread(x)
                    == self.thread(x),
            after.thread(tid) is Some <==> after.is_live(tid),
            after.thread(tid) is Some ==> after.thread(tid)->0.tid == Some(tid),
            after.ready().no_duplicates(),
            forall|x: Tid|
                x != tid ==> (#[trigger] after.ready().contains(x) <==> self.ready().contains(x)),
            after.ready().contains(tid) <==> after.status(tid) == Some(Status::Ready),
        ensures
            after.wf(),
    {
        assert forall|x: Tid| #[trigger] after.thread(x) is Some <==> after.is_live(x) by {
            if x != tid {
                assert(after.status(x) == self.status(x));
            }
        }
    }

    /// The ready ordering after a thread that was not in it is enqueued.
    proof fn lemma_ready_enqueued(before: S::State, tid: Tid)
        requires
            S::ready(before).no_duplicates(),
            !S::ready(before).contains(tid),
        ensures
            S::ready(S::enqueued(before, tid)).no_duplicates(),
            S::ready(S::enqueued(before, tid)).contains(tid),
            forall|x: Tid|
                x != tid ==> (#[trigger] S::ready(S::enqueued(before, tid)).contains(x)
                    <==> S::ready(before).contains(x)),
    {
        S::lemma_enqueued(before, tid);
        let at = choose|i: int|
            0 <= i <= S::ready(before).len() && S::ready(S::enqueued(before, tid))
                == #[trigger] S::ready(before).insert(i, tid);
        lemma_insert_members(S::ready(before), at, tid);
    }

    /// The ready ordering after a thread is dropped from the policy.
    proof fn lemma_ready_removed(before: S::State, tid: Tid)
        requires
            S::ready(before).no_duplicates(),
        ensures
            S::ready(S::removed(before, tid)).no_duplicates(),
            !S::ready(S::removed(before, tid)).contains(tid),
            forall|x: Tid|
                x != tid ==> (#[trigger] S::ready(S::removed(before, tid)).contains(x)
                    <==> S::ready(before).contains(x)),
    {
        S::lemma_removed(before, tid);
        lemma_without_members(S::ready(before), tid);
    }

    /// `add` keeps the invariant.
    pub proof fn lemma_add(self, thread: ThreadView)
        requires
            self.wf(),
        ensures
            self.add(thread).wf(),
    {
        if let Some(tid) = self.first_free() {
            Self::lemma_ready_enqueued(self.policy, tid);
            self.lemma_slot(self.add(thread), tid);
        }
    }

    /// `acquire` keeps the invariant, and the thread it hands out was ready.
    pub proof fn lemma_acquire(self)
        requires
            self.wf(),
        ensures
            self.acquire().wf(),
            self.next() matches Some(tid) ==> self.status(tid) == Some(Status::Ready)
                && self.acquire().status(tid) == Some(Status::Running),
    {
        if let Some(tid) = self.next() {
            S::lemma_dequeued(self.policy);
            lemma_drop_first_members(self.ready());
            assert(self.thread(tid) is Some <==> self.is_live(tid));
            self.lemma_slot(self.acquire(), tid);
        }
    }

    /// `tick` keeps the invariant.
    pub proof fn lemma_tick(self, tid: Tid)
        requires
            self.wf(),
        ensures
            self.tick(tid).wf(),
    {
        if self.status(tid) == Some(Status::Running) {
            S::lemma_ticked(self.policy, tid);
            if S::expired(self.policy, tid) {
                Self::lemma_ready_enqueued(S::ticked(self.policy, tid), tid);
            }
            assert(self.thread(tid) is Some <==> self.is_live(tid));
            self.lemma_slot(self.tick(tid), tid);
        }
    }

    /// `requeue` keeps the invariant.
    pub proof fn lemma_requeue(self, tid: Tid)
        requires
            self.wf(),
        ensures
            self.requeue(tid).wf(),
    {
        if self.status(tid) == Some(Status::Running) {
            Self::lemma_ready_enqueued(self.policy, tid);
            assert(self.thread(tid) is Some <==> self.is_live(tid));
            self.lemma_slot(self.requeue(tid), tid);
        }
    }

    /// `exit` keeps the invariant.
    pub proof fn lemma_exit(self, tid: Tid, code: ExitCode)
        requires
            self.wf(),
        ensures
            self.exit(tid, code).wf(),
    {
        if self.status(tid) == Some(Status::Ready) || self.status(tid) == Some(Status::Running) {
            Self::lemma_ready_removed(self.policy, tid);
            self.lemma_slot(self.exit(tid, code), tid);
        }
    }

    /// `sleep_remove` keeps the invariant.
    pub proof fn lemma_sleep_remove(self, tid: Tid)
        requires
            self.wf(),
        ensures
            self.sleep_remove(tid).wf(),
    {
        if self.status(tid) == Some(Status::Ready) || self.status(tid) == Some(Status::Running) {
            Self::lemma_ready_removed(self.policy, tid);
            assert(self.thread(tid) is Some <==> self.is_live(tid));
            self.lemma_slot(self.sleep_remove(tid), tid);
        }
    }

    /// `wake_up` keeps the invariant.
    pub proof fn lemma_wake_up(self, tid: Tid)
        requires
            self.wf(),
        ensures
            self.wake_up(tid).wf(),
    {
        if self.status(tid) == Some(Status::Sleeping) {
            Self::lemma_ready_enqueued(self.policy, tid);
            assert(self.thread(tid) is Some <==> self.is_live(tid));
            self.lemma_slot(self.wake_up(tid), tid);
        }
    }
}

/// One call on a pool.
pub enum PoolCall {
    /// `add` with this thread.
    Add(ThreadView),
    /// `acquire`.
    Acquire,
    /// `tick` for this thread.
    Tick(Tid),
    /// `requeue` of this thread.
    Requeue(Tid),
    /// `exit` of this thread with this code.
    Exit(Tid, ExitCode),
    /// `sleep_remove` of this thread.
    SleepRemove(Tid),
    /// `wake_up` of this thread.
    WakeUp(Tid),
}

impl<S: Scheduler> PoolView<S> {
    /// The pool after one call.
    pub open spec fn step(self, call: PoolCall) -> Self {
        match call {
            PoolCall::Add(thread) => self.add(thread),
            PoolCall::Acquire => self.acquire(),
            PoolCall::Tick(tid) => self.tick(tid),
            PoolCall::Requeue(tid) => self.requeue(tid),
            PoolCall::Exit(tid, code) => self.exit(tid, code),
            PoolCall::SleepRemove(tid) => self.sleep_remove(tid),
            PoolCall::WakeUp(tid) => self.wake_up(tid),
        }
    }

    /// The pool after a sequence of calls.
    pub open spec fn after(self, calls: Seq<PoolCall>) -> Self
        decreases calls.len(),
    {
        if calls.len() == 0 {
            self
        } else {
            self.after(calls.drop_last()).step(calls.last())
        }
    }

    /// The threads that the `acquire` calls among `calls` hand out, in order.
    pub open spec fn acquired(self, calls: Seq<PoolCall>) -> Seq<Tid>
        decreases calls.len(),
    {
        if calls.len() == 0 {
            Seq::empty()
        } else {
            let so_far = self.acquired(calls.drop_last());
            match (calls.last(), self.after(calls.drop_last()).next()) {
                (PoolCall::Acquire, Some(tid)) => so_far.push(tid),
                _ => so_far,
            }
        }
    }

    /// Every call keeps the invariant.
    pub proof fn lemma_step(self, call: PoolCall)
        requires
            self.wf(),
        ensures
            self.step(call).wf(),
    {
        match call {
            PoolCall::Add(thread) => self.lemma_add(thread),
            PoolCall::Acquire => self.lemma_acquire(),
            PoolCall::Tick(tid) => self.lemma_tick(tid),
            PoolCall::Requeue(tid) => self.lemma_requeue(tid),
            PoolCall::Exit(tid, code) => self.lemma_exit(tid, code),
            PoolCall::SleepRemove(tid) => self.lemma_sleep_remove(tid),
            PoolCall::WakeUp(tid) => self.lemma_wake_up(tid),
        }
    }

    /// Every sequence of calls keeps the invariant.
    pub proof fn lemma_after(self, calls: Seq<PoolCall>)
        requires
            self.wf(),
        ensures
            self.after(calls).wf(),
        decreases calls.len(),
    {
        if calls.len() > 0 {
            self.lemma_after(calls.drop_last());
            self.after(calls.drop_last()).lemma_step(calls.last());
        }
    }

    /// Whatever was called before, `acquire` only ever hands out a thread
    /// that is ready at that moment, and that thread runs afterwards.
    pub proof fn lemma_acquired_was_ready(self, calls: Seq<PoolCall>)
        requires
            self.wf(),
        ensures
            self.after(calls).next() matches Some(tid) ==> self.after(calls).status(tid) == Some(
                Status::Ready,
            ) && self.after(calls).acquire().status(tid) == Some(Status::Running),
    {
        self.lemma_after(calls);
        self.after(calls).lemma_acquire();
    }

    /// In a sequence of `add` and `acquire` calls no thread is handed out
    /// twice: a thread that was handed out runs, and stays running until
    /// some other call changes its state.
    pub proof fn lemma_acquired_once(self, calls: Seq<PoolCall>)
        requires
            self.wf(),
            forall|k: int| 0 <= k < calls.len() ==> calls[k] is Add || calls[k] is Acquire,
        ensures
            self.after(calls).wf(),
            self.acquired(calls).no_duplicates(),
            forall|i: int|
                0 <= i < self.acquired(calls).len() ==> self.after(calls).status(
                    #[trigger] self.acquired(calls)[i],
                ) == Some(Status::Running),
        decreases calls.len(),
    {
        if calls.len() > 0 {
            let earlier = calls.drop_last();
            self.lemma_acquired_once(earlier);
            let before = self.after(earlier);
            before.lemma_step(calls.last());
            if calls.last() is Acquire {
                before.lemma_acquire();
            }
        }
    }

    /// No ready thread is lost: as long as nothing else is called, the
    /// threads of the ready ordering are handed out one by one in their
    /// order, so that the thread at place `n` is the next after `n` calls of
    /// `acquire`.
    pub proof fn lemma_acquire_in_order(self, n: nat)
        requires
            self.wf(),
            n <= self.ready().len(),
        ensures
            self.after(Seq::new(n, |i: int| PoolCall::Acquire)).wf(),
            self.after(Seq::new(n, |i: int| PoolCall::Acquire)).ready() == self.ready().skip(
                n as int,
            ),
            self.acquired(Seq::new(n, |i: int| PoolCall::Acquire)) == self.ready().take(n as int),
        decreases n,
    {
        if n > 0 {
            let m = (n - 1) as nat;
            let earlier = Seq::new(m, |i: int| PoolCall::Acquire);
            assert(Seq::new(n, |i: int| PoolCall::Acquire).drop_last() =~= earlier);
            self.lemma_acquire_in_order(m);
            self.after(earlier).lemma_acquire();
            S::lemma_dequeued(self.after(earlier).policy);
        }
    }

    /// A thread that exits leaves its slot and the ready ordering, and its
    /// slot keeps the exit code.
    pub proof fn lemma_exit_leaves(self, tid: Tid, code: ExitCode)
        requires
            self.wf(),
            self.status(tid) == Some(Status::Ready) || self.status(tid) == Some(Status::Running),
        ensures
            self.exit(tid, code).status(tid) == Some(Status::Exited(code)),
            self.exit(tid, code).thread(tid) is None,
            self.exit(tid, code).is_free(tid),
            !self.exit(tid, code).ready().contains(tid),
    {
        self.lemma_exit(tid, code);
    }

    /// A thread that is not live stays so, and is never handed out, whatever
    /// is called, as long as no new thread is added.
    pub proof fn lemma_dead_stays(self, tid: Tid, calls: Seq<PoolCall>)
        requires
            self.wf(),
            !self.is_live(tid),
            forall|k: int| 0 <= k < calls.len() ==> !(calls[k] is Add),
        ensures
            self.after(calls).wf(),
            self.after(calls).status(tid) == self.status(tid),
            !self.acquired(calls).contains(tid),
        decreases calls.len(),
    {
        if calls.len() > 0 {
            let earlier = calls.drop_last();
            self.lemma_dead_stays(tid, earlier);
            let before = self.after(earlier);
            before.lemma_step(calls.last());
            if let Some(next) = before.next() {
                assert(before.ready().contains(next));
            }
        }
    }

    /// Exit is final: once a ready or running thread has exited, its
    /// identifier keeps the exit code and is never handed out again,
    /// whatever is called, until a new thread takes the slot.
    pub proof fn lemma_exit_final(self, tid: Tid, code: ExitCode, calls: Seq<PoolCall>)
        requires
            self.wf(),
            self.status(tid) == Some(Status::Ready) || self.status(tid) == Some(Status::Running),
            forall|k: int| 0 <= k < calls.len() ==> !(calls[k] is Add),
        ensures
            self.exit(tid, code).after(calls).status(tid) == Some(Status::Exited(code)),
            !self.exit(tid, code).acquired(calls).contains(tid),
    {
        self.lemma_exit(tid, code);
        self.exit(tid, code).lemma_dead_stays(tid, calls);
    }

    /// A new thread never takes the identifier of a live one: `add` leaves
    /// every live thread, its state and its identifier as they are.
    pub proof fn lemma_add_spares_live(self, thread: ThreadView, tid: Tid)
        requires
            self.wf(),
            self.is_live(tid),
        ensures
            self.first_free() != Some(tid),
            self.add(thread).status(tid) == self.status(tid),
            self.add(thread).thread(tid) == self.thread(tid),
    {
    }

    /// Waking a thread that does not sleep, be it ready, running, exited or
    /// unknown, changes nothing: no thread is enqueued twice.
    pub proof fn lemma_wake_up_awake(self, tid: Tid)
        requires
            self.status(tid) != Some(Status::Sleeping),
        ensures
            self.wake_up(tid) == self,
    {
    }

    /// Waking is idempotent: a second wake-up of the same thread changes
    /// nothing.
    pub proof fn lemma_wake_up_twice(self, tid: Tid)
        requires
            self.wf(),
        ensures
            self.wake_up(tid).wake_up(tid) == self.wake_up(tid),
            self.wake_up(tid).ready().no_duplicates(),
    {
        self.lemma_wake_up(tid);
    }
}

/// A bounded registry of threads, keyed by identifier, with the scheduling
/// policy that orders the ready ones.
pub struct ThreadPool<S: Scheduler> {
    status: Vec<Option<Status>>,
    threads: Vec<Option<Thread>>,
    scheduler: S,
}

impl<S: Scheduler> View for ThreadPool<S> {
    type V = PoolView<S>;

    closed spec fn view(&self) -> PoolView<S> {
        PoolView {
            slots: Seq::new(
                self.status@.len(),
                |i: int|
                    SlotView {
                        status: self.status@[i],
                        thread: match self.threads@[i] {
                            Some(thread) => Some(thread@),
                            None => None,
                        },
                    },
            ),
            policy: self.scheduler.state(),
        }
    }
}

impl<S: Scheduler> ThreadPool<S> {
    /// The representation is consistent and the pool's invariant holds.
    pub closed spec fn wf(&self) -> bool {
        &&& self.status@.len() == self.threads@.len()
        &&& self.scheduler.wf()
        &&& self@.wf()
    }

    /// Every well-formed pool satisfies the invariant of its model.
    pub proof fn lemma_wf(&self)
        requires
            self.wf(),
        ensures
            self@.wf(),
    {
    }

    /// Every identifier of a slot is a machine integer below the capacity, so
    /// that the largest machine integer names no slot.
    pub proof fn lemma_capacity(&self)
        ensures
            self@.capacity() <= usize::MAX,
            self@.status(usize::MAX) is None,
    {
        assert(self.status@.len() == self.status.len());
    }

    /// A pool of `size` unused slots around a policy with nothing ready.
    pub fn new(size: usize, scheduler: S) -> (pool: Self)
        requires
            scheduler.wf(),
            S::ready(scheduler.state()).len() == 0,
        ensures
            pool.wf(),
            pool@ == PoolView::<S>::vacant(size as nat, scheduler.state()),
    {
        let mut status: Vec<Option<Status>> = Vec::new();
        let mut threads: Vec<Option<Thread>> = Vec::new();
        let mut i: usize = 0;
        while i < size
            invariant
                i <= size,
                status@.len() == i,
                threads@.len() == i,
                forall|j: int| 0 <= j < i ==> status@[j] is None && threads@[j] is None,
            decreases size - i,
        {
            status.push(None);
            threads.push(None);
            i = i + 1;
        }
        ThreadPool { status, threads, scheduler }
    }

    /// Number of slots.
    pub fn capacity(&self) -> (size: usize)
        ensures
            size == self@.capacity(),
    {
        self.status.len()
    }

    /// State of the thread under `tid`; `None` for a slot that was never used
    /// and for an identifier beyond the slots.
    pub fn status(&self, tid: Tid) -> (status: Option<Status>)
        ensures
            status == self@.status(tid),
    {
        if tid < self.status.len() {
            self.status[tid]
        } else {
            None
        }
    }

    /// Number of live threads: those that are ready, running or sleeping.
    pub fn occupancy(&self) -> (live: usize)
        ensures
            live == self@.occupancy(),
    {
        let n: usize = self.status.len();
        let mut tid: usize = 0;
        let mut live: usize = 0;
        while tid < n
            invariant
                n == self.status@.len(),
                tid <= n,
                live <= tid,
                live == self@.live_below(tid as nat),
            decreases n - tid,
        {
            let counts = match self.status[tid] {
                Some(Status::Ready) => true,
                Some(Status::Running) => true,
                Some(Status::Sleeping) => true,
                _ => false,
            };
            if counts {
                live = live + 1;
            }
            tid = tid + 1;
        }
        live
    }

    /// Whether any thread is ready.
    pub fn has_ready(&self) -> (any: bool)
        requires
            self.wf(),
        ensures
            any == (self@.ready().len() > 0),
    {
        let n: usize = self.status.len();
        let mut tid: usize = 0;
        let mut any = false;
        while tid < n && !any
            invariant
                n == self.status@.len(),
                tid <= n,
                self.wf(),
                forall|below: Tid| below < tid ==> self@.status(below) != Some(Status::Ready),
                any ==> tid < n && self@.status(tid) == Some(Status::Ready),
            decreases n - tid + (if any { 0int } else { 1int }),
        {
            let ready = match self.status[tid] {
                Some(Status::Ready) => true,
                _ => false,
            };
            if ready {
                any = true;
            } else {
                tid = tid + 1;
            }
        }
        proof {
            if !any && self@.ready().len() > 0 {
                assert(self@.ready().contains(self@.ready()[0]));
            }
        }
        any
    }

    /// Registers `thread` in the free slot with the least identifier, ready
    /// and enqueued, and returns that identifier. Fails, and changes nothing,
    /// exactly when no slot is free.
    pub fn add(&mut self, thread: Thread) -> (added: Result<Tid, PoolError>)
        requires
            old(self).wf(),
        ensures
            final(self).wf(),
            final(self)@ == old(self)@.add(thread@),
            match added {
                Ok(tid) => old(self)@.first_free() == Some(tid) && old(self)@.is_first_free(tid),
                Err(e) => e == PoolError::PoolExhausted && old(self)@.first_free() is None
                    && forall|tid: Tid| !old(self)@.is_free(tid),
            },
    {
        let n: usize = self.status.len();
        let mut tid: usize = 0;
        let mut found = false;
        while tid < n && !found
            invariant
                n == self.status@.len(),
                tid <= n,
                *self == *old(self),
                forall|below: Tid| below < tid ==> !self@.is_free(below),
                found ==> tid < n && self@.is_free(tid),
            decreases n - tid + (if found { 0int } else { 1int }),
        {
            let free = match self.status[tid] {
                Some(Status::Ready) => false,
                Some(Status::Running) => false,
                Some(Status::Sleeping) => false,
                _ => true,
            };
            if free {
                found = true;
            } else {
                tid = tid + 1;
            }
        }
        if found {
            proof {
                self@.lemma_first_free(tid);
                self@.lemma_add(thread@);
            }
            let mut registered = thread;
            registered.register(tid);
            self.status.set(tid, Some(Status::Ready));
            self.threads.set(tid, Some(registered));
            self.scheduler.enqueue(tid);
            assert(self@.slots =~= old(self)@.add(thread@).slots);
            Ok(tid)
        } else {
            proof {
                old(self)@.lemma_no_free();
            }
            Err(PoolError::PoolExhausted)
        }
    }

    /// Hands out the next thread to run: the head of the ready ordering is
    /// dequeued and becomes running. `None`, and no change, exactly when no
    /// thread is ready.
    pub fn acquire(&mut self) -> (next: Option<Tid>)
        requires
            old(self).wf(),
        ensures
            final(self).wf(),
            next == old(self)@.next(),
            final(self)@ == old(self)@.acquire(),
            next matches Some(tid) ==> old(self)@.status(tid) == Some(Status::Ready)
                && final(self)@.status(tid) == Some(Status::Running),
    {
        proof {
            self@.lemma_acquire();
        }
        let next = self.scheduler.dequeue();
        if let Some(tid) = next {
            self.status.set(tid, Some(Status::Running));
            assert(self@.slots =~= old(self)@.acquire().slots);
        }
        next
    }

    /// The thread registered under `tid`, as long as it is live.
    pub fn retrieve(&self, tid: Tid) -> (found: Option<&Thread>)
        requires
            self.wf(),
        ensures
            match found {
                Some(thread) => self@.thread(tid) == Some(thread@),
                None => self@.thread(tid) is None,
            },
            found is Some <==> self@.is_live(tid),
    {
        if tid < self.threads.len() {
            match &self.threads[tid] {
                Some(thread) => Some(thread),
                None => None,
            }
        } else {
            None
        }
    }

    /// Whether the thread under `tid` is running.
    fn is_running(&self, tid: Tid) -> (running: bool)
        requires
            self.wf(),
        ensures
            running == (self@.status(tid) == Some(Status::Running)),
    {
        if tid < self.status.len() {
            match self.status[tid] {
                Some(Status::Running) => true,
                _ => false,
            }
        } else {
            false
        }
    }

    /// Whether the thread under `tid` is ready or running.
    fn is_active(&self, tid: Tid) -> (active: bool)
        requires
            self.wf(),
        ensures
            active == (self@.status(tid) == Some(Status::Ready) || self@.status(tid) == Some(
                Status::Running,
            )),
    {
        if tid < self.status.len() {
            match self.status[tid] {
                Some(Status::Ready) => true,
                Some(Status::Running) => true,
                _ => false,
            }
        } else {
            false
        }
    }

    /// Accounts one tick to the running thread `tid`. When the policy finds
    /// its quantum used up, the thread becomes ready and is enqueued again,
    /// and the result says that another thread must be chosen. For a `tid`
    /// that is not running nothing changes and the result is `false`.
    pub fn tick(&mut self, tid: Tid) -> (reschedule: bool)
        requires
            old(self).wf(),
        ensures
            final(self).wf(),
            reschedule == old(self)@.preempts(tid),
            final(self)@ == old(self)@.tick(tid),
    {
        proof {
            self@.lemma_tick(tid);
        }
        if self.is_running(tid) {
            let used_up = self.scheduler.tick(tid);
            if used_up {
                self.status.set(tid, Some(Status::Ready));
                self.scheduler.enqueue(tid);
            }
            assert(self@.slots =~= old(self)@.tick(tid).slots);
            used_up
        } else {
            false
        }
    }

    /// Ends the turn of the running thread `tid`: it becomes ready and is
    /// enqueued again. For a `tid` that is not running nothing changes.
    pub fn requeue(&mut self, tid: Tid)
        requires
            old(self).wf(),
        ensures
            final(self).wf(),
            final(self)@ == old(self)@.requeue(tid),
    {
        proof {
            self@.lemma_requeue(tid);
        }
        if self.is_running(tid) {
            self.status.set(tid, Some(Status::Ready));
            self.scheduler.enqueue(tid);
            assert(self@.slots =~= old(self)@.requeue(tid).slots);
        }
    }

    /// Terminates the ready or running thread `tid` with `code`: it leaves the
    /// policy, its slot keeps the exit code and is free for a new thread. For
    /// any other `tid` nothing changes.
    pub fn exit(&mut self, tid: Tid, code: ExitCode)
        requires
            old(self).wf(),
        ensures
            final(self).wf(),
            final(self)@ == old(self)@.exit(tid, code),
    {
        proof {
            self@.lemma_exit(tid, code);
        }
        if self.is_active(tid) {
            self.status.set(tid, Some(Status::Exited(code)));
            self.threads.set(tid, None);
            self.scheduler.remove(tid);
            assert(self@.slots =~= old(self)@.exit(tid, code).slots);
        }
    }

    /// Puts the ready or running thread `tid` to sleep: it leaves the policy
    /// and keeps its slot. For any other `tid` nothing changes.
    pub fn sleep_remove(&mut self, tid: Tid)
        requires
            old(self).wf(),
        ensures
            final(self).wf(),
            final(self)@ == old(self)@.sleep_remove(tid),
    {
        proof {
            self@.lemma_sleep_remove(tid);
        }
        if self.is_active(tid) {
            self.status.set(tid, Some(Status::Sleeping));
            self.scheduler.remove(tid);
            assert(self@.slots =~= old(self)@.sleep_remove(tid).slots);
        }
    }

    /// Wakes the sleeping thread `tid`: it becomes ready and is enqueued. For
    /// a `tid` that is not sleeping nothing changes.
    pub fn wake_up(&mut self, tid: Tid)
        requires
            old(self).wf(),
        ensures
            final(self).wf(),
            final(self)@ == old(self)@.wake_up(tid),
    {
        proof {
            self@.lemma_wake_up(tid);
        }
        let sleeping = if tid < self.status.len() {
            match self.status[tid] {
                Some(Status::Sleeping) => true,
                _ => false,
            }
        } else {
            false
        };
        if sleeping {
            self.status.set(tid, Some(Status::Ready));
            self.scheduler.enqueue(tid);
            assert(self@.slots =~= old(self)@.wake_up(tid).slots);
        }
    }
}

} // verus!
