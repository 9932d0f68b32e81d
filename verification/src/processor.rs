//! The single processor: an idle thread, the pool of all other threads and
//! the thread that runs at the moment.
//!
//! The processor decides; it does not switch contexts itself. `run` says
//! which context is to be entered next, `tick` says whether the running
//! thread has to give way, and whoever drives the processor performs the
//! switch at a point where that is safe.

use vstd::prelude::*;
use crate::scheduler::Scheduler;
use crate::structs::{Status, Thread, ThreadView};
use crate::thread_pool::{PoolError, PoolView, ThreadPool};
use crate::{ExitCode, Tid};

verus! {

/// What `current_tid` returns while the idle thread is active. No pool ever
/// gives this identifier to a thread.
pub const IDLE_TID: Tid = usize::MAX;

/// The context that is to be entered next.
#[derive(Clone, Copy, Debug, PartialEq, Eq, Structural)]
pub enum Switch {
    /// The thread with this identifier.
    Thread(Tid),
    /// The idle thread: nothing is ready.
    Idle,
}

/// A processor as a mathematical value.
#[verifier::ext_equal]
#[verifier::reject_recursive_types(S)]
pub struct ProcessorView<S: Scheduler> {
    /// The pool of threads.
    pub pool: PoolView<S>,
    /// The idle thread, which is in no slot of the pool.
    pub idle: ThreadView,
    /// The running thread; `None` while the idle thread is active.
    pub current: Option<Tid>,
}

impl<S: Scheduler> ProcessorView<S> {
    /// The processor's invariant: the pool's invariant holds, and the one
    /// running thread of the pool, if there is one, is the current thread.
    pub open spec fn wf(self) -> bool {
        &&& self.pool.wf()
        &&& forall|tid: Tid| #[trigger]
            self.pool.status(tid) == Some(Status::Running) <==> self.current == Some(tid)
    }

    /// The processor after `add_thread`.
    pub open spec fn add_thread(self, thread: ThreadView) -> Self {
        ProcessorView { pool: self.pool.add(thread), ..self }
    }

    /// Whether a tick ends the turn of the current thread.
    pub open spec fn reschedules(self) -> bool {
        match self.current {
            Some(tid) => self.pool.preempts(tid),
            None => false,
        }
    }

    /// The processor after `tick`: the pool accounts the tick to the current
    /// thread, and a thread whose turn ends no longer is the current one.
    pub open spec fn tick(self) -> Self {
        match self.current {
            Some(tid) => ProcessorView {
                pool: self.pool.tick(tid),
                current: if self.pool.preempts(tid) {
                    None
                } else {
                    self.current
                },
                ..self
            },
            None => self,
        }
    }

    /// The processor after `yield_now`: the current thread is ready and
    /// enqueued again, and no thread is current.
    pub open spec fn yield_now(self) -> Self {
        match self.current {
            Some(tid) => ProcessorView { pool: self.pool.requeue(tid), current: None, ..self },
            None => self,
        }
    }

    /// The context that `run` selects: the head of the ready ordering once
    /// the current thread, if there is one, has gone back into it.
    pub open spec fn selects(self) -> Switch {
        match self.yield_now().pool.next() {
            Some(tid) => Switch::Thread(tid),
            None => Switch::Idle,
        }
    }

    /// The processor after `run`: the current thread, if there is one, has
    /// gone back into the ready ordering, and the head of that ordering is
    /// running and current.
    pub open spec fn run(self) -> Self {
        let yielded = self.yield_now();
        ProcessorView {
            pool: yielded.pool.acquire(),
            current: yielded.pool.next(),
            ..self
        }
    }

    /// The processor after `exit`: the current thread has exited with
    /// `code`, and no thread is current.
    pub open spec fn exit(self, code: ExitCode) -> Self {
        match self.current {
            Some(tid) => ProcessorView { pool: self.pool.exit(tid, code), current: None, ..self },
            None => self,
        }
    }

    /// The processor after `sleep`: the current thread sleeps, and no thread
    /// is current.
    pub open spec fn sleep(self) -> Self {
        match self.current {
            Some(tid) => ProcessorView { pool: self.pool.sleep_remove(tid), current: None, ..self },
            None => self,
        }
    }

    /// The processor after `wake_up`.
    pub open spec fn wake_up(self, tid: Tid) -> Self {
        ProcessorView { pool: self.pool.wake_up(tid), ..self }
    }

    /// What `current_tid` returns.
    pub open spec fn current_tid(self) -> Tid {
        match self.current {
            Some(tid) => tid,
            None => IDLE_TID,
        }
    }

    /// At most one thread runs at any time, and it is the current one.
    pub proof fn lemma_one_running(self, a: Tid, b: Tid)
        requires
            self.wf(),
            self.pool.status(a) == Some(Status::Running),
            self.pool.status(b) == Some(Status::Running),
        ensures
            a == b,
            self.current == Some(a),
    {
    }

    /// `add_thread` keeps the invariant.
    pub proof fn lemma_add_thread(self, thread: ThreadView)
        requires
            self.wf(),
        ensures
            self.add_thread(thread).wf(),
    {
        self.pool.lemma_add(thread);
        let after = self.add_thread(thread);
        assert forall|tid: Tid| #[trigger]
            after.pool.status(tid) == Some(Status::Running) <==> after.current == Some(tid) by {
            assert(self.pool.status(tid) == Some(Status::Running) <==> self.current == Some(tid));
        }
    }

    /// `tick` keeps the invariant.
    pub proof fn lemma_tick(self)
        requires
            self.wf(),
        ensures
            self.tick().wf(),
    {
        if let Some(current) = self.current {
            self.pool.lemma_tick(current);
            let after = self.tick();
            assert forall|tid: Tid| #[trigger]
                after.pool.status(tid) == Some(Status::Running) <==> after.current == Some(
                    tid,
                ) by {
                assert(self.pool.status(tid) == Some(Status::Running) <==> self.current == Some(
                    tid,
                ));
            }
        }
    }

    /// `yield_now` keeps the invariant, and afterwards no thread runs.
    pub proof fn lemma_yield_now(self)
        requires
            self.wf(),
        ensures
            self.yield_now().wf(),
            self.yield_now().current is None,
    {
        if let Some(current) = self.current {
            self.pool.lemma_requeue(current);
            let after = self.yield_now();
            assert forall|tid: Tid| #[trigger]
                after.pool.status(tid) == Some(Status::Running) <==> after.current == Some(
                    tid,
                ) by {
                assert(self.pool.status(tid) == Some(Status::Running) <==> self.current == Some(
                    tid,
                ));
            }
        }
    }

    /// `run` keeps the invariant.
    pub proof fn lemma_run(self)
        requires
            self.wf(),
        ensures
            self.run().wf(),
    {
        self.lemma_yield_now();
        let yielded = self.yield_now();
        yielded.pool.lemma_acquire();
        let after = self.run();
        assert forall|tid: Tid| #[trigger]
            after.pool.status(tid) == Some(Status::Running) <==> after.current == Some(tid) by {
            assert(yielded.pool.status(tid) == Some(Status::Running) <==> yielded.current
                == Some(tid));
        }
    }

    /// `exit` keeps the invariant.
    pub proof fn lemma_exit(self, code: ExitCode)
        requires
            self.wf(),
        ensures
            self.exit(code).wf(),
    {
        if let Some(current) = self.current {
            self.pool.lemma_exit(current, code);
            let after = self.exit(code);
            assert forall|tid: Tid| #[trigger]
                after.pool.status(tid) == Some(Status::Running) <==> after.current == Some(
                    tid,
                ) by {
                assert(self.pool.status(tid) == Some(Status::Running) <==> self.current == Some(
                    tid,
                ));
            }
        }
    }

    /// `sleep` keeps the invariant.
    pub proof fn lemma_sleep(self)
        requires
            self.wf(),
        ensures
            self.sleep().wf(),
    {
        if let Some(current) = self.current {
            self.pool.lemma_sleep_remove(current);
            let after = self.sleep();
            assert forall|tid: Tid| #[trigger]
                after.pool.status(tid) == Some(Status::Running) <==> after.current == Some(
                    tid,
                ) by {
                assert(self.pool.status(tid) == Some(Status::Running) <==> self.current == Some(
                    tid,
                ));
            }
        }
    }

    /// `wake_up` keeps the invariant.
    pub proof fn lemma_wake_up(self, woken: Tid)
        requires
            self.wf(),
        ensures
            self.wake_up(woken).wf(),
    {
        self.pool.lemma_wake_up(woken);
        let after = self.wake_up(woken);
        assert forall|tid: Tid| #[trigger]
            after.pool.status(tid) == Some(Status::Running) <==> after.current == Some(tid) by {
            assert(self.pool.status(tid) == Some(Status::Running) <==> self.current == Some(tid));
        }
    }
}

/// The single processor of the kernel.
pub struct Processor<S: Scheduler> {
    pool: ThreadPool<S>,
    idle: Thread,
    current: Option<Tid>,
}

impl<S: Scheduler> View for Processor<S> {
    type V = ProcessorView<S>;

    closed spec fn view(&self) -> ProcessorView<S> {
        ProcessorView { pool: self.pool@, idle: self.idle@, current: self.current }
    }
}

impl<S: Scheduler> Processor<S> {
    /// The representation is consistent and the processor's invariant holds.
    pub closed spec fn wf(&self) -> bool {
        &&& self.pool.wf()
        &&& self@.wf()
    }

    /// Every well-formed processor satisfies the invariant of its model.
    pub proof fn lemma_wf(&self)
        requires
            self.wf(),
        ensures
            self@.wf(),
    {
    }

    /// Binds the idle thread and the pool into a processor on which the idle
    /// thread is active. The pool must not have handed out a thread that
    /// still runs.
    pub fn init(idle: Thread, pool: ThreadPool<S>) -> (cpu: Self)
        requires
            pool.wf(),
            forall|tid: Tid| pool@.status(tid) != Some(Status::Running),
        ensures
            cpu.wf(),
            cpu@ == (ProcessorView { pool: pool@, idle: idle@, current: None }),
    {
        proof {
            pool.lemma_wf();
        }
        Processor { pool, idle, current: None }
    }

    /// Registers a new thread in the pool; see `ThreadPool::add`.
    pub fn add_thread(&mut self, thread: Thread) -> (added: Result<Tid, PoolError>)
        requires
            old(self).wf(),
        ensures
            final(self).wf(),
            final(self)@ == old(self)@.add_thread(thread@),
            match added {
                Ok(tid) => old(self)@.pool.first_free() == Some(tid)
                    && old(self)@.pool.is_first_free(tid),
                Err(e) => e == PoolError::PoolExhausted && old(self)@.pool.first_free() is None
                    && forall|tid: Tid| !old(self)@.pool.is_free(tid),
            },
    {
        proof {
            self@.lemma_add_thread(thread@);
        }
        self.pool.add(thread)
    }

    /// Whether the idle thread has to leave its wait loop: a thread is ready,
    /// so the selection in `run` has work to do.
    pub fn idle_main(&self) -> (leave: bool)
        requires
            self.wf(),
        ensures
            leave == (self@.pool.ready().len() > 0),
    {
        self.pool.has_ready()
    }

    /// Accounts one tick to the current thread. Returns whether its turn has
    /// ended, so that the caller must switch to the context that `run`
    /// selects; the thread then is ready, enqueued and no longer current.
    /// While the idle thread is active nothing changes and the result is
    /// `false`.
    pub fn tick(&mut self) -> (reschedule: bool)
        requires
            old(self).wf(),
        ensures
            final(self).wf(),
            reschedule == old(self)@.reschedules(),
            final(self)@ == old(self)@.tick(),
    {
        proof {
            self@.lemma_tick();
        }
        match self.current {
            Some(tid) => {
                let reschedule = self.pool.tick(tid);
                if reschedule {
                    self.current = None;
                }
                reschedule
            },
            None => false,
        }
    }

    /// One pass of the scheduling loop: the current thread, if there still is
    /// one, goes back into the ready ordering; then the next ready thread
    /// becomes running and current. Returns the context to switch into: that
    /// thread, or the idle thread when none is ready.
    pub fn run(&mut self) -> (target: Switch)
        requires
            old(self).wf(),
        ensures
            final(self).wf(),
            target == old(self)@.selects(),
            final(self)@ == old(self)@.run(),
            match target {
                Switch::Thread(tid) => final(self)@.current == Some(tid)
                    && final(self)@.pool.status(tid) == Some(Status::Running),
                Switch::Idle => final(self)@.current is None,
            },
    {
        proof {
            self@.lemma_run();
            self@.lemma_yield_now();
            self@.yield_now().pool.lemma_acquire();
        }
        if let Some(tid) = self.current {
            self.pool.requeue(tid);
        }
        let next = self.pool.acquire();
        self.current = next;
        match next {
            Some(tid) => Switch::Thread(tid),
            None => Switch::Idle,
        }
    }

    /// Terminates the current thread with `code`; afterwards no thread is
    /// current and the caller switches away for good. While the idle thread
    /// is active nothing changes.
    pub fn exit(&mut self, code: ExitCode)
        requires
            old(self).wf(),
        ensures
            final(self).wf(),
            final(self)@ == old(self)@.exit(code),
    {
        proof {
            self@.lemma_exit(code);
        }
        if let Some(tid) = self.current {
            self.pool.exit(tid, code);
            self.current = None;
        }
    }

    /// Ends the turn of the current thread of its own accord: it is ready
    /// and enqueued again, and no thread is current. While the idle thread is
    /// active nothing changes.
    pub fn yield_now(&mut self)
        requires
            old(self).wf(),
        ensures
            final(self).wf(),
            final(self)@ == old(self)@.yield_now(),
    {
        proof {
            self@.lemma_yield_now();
        }
        if let Some(tid) = self.current {
            self.pool.requeue(tid);
            self.current = None;
        }
    }

    /// Puts the current thread to sleep: it keeps its slot, leaves the ready
    /// ordering and no longer is current. While the idle thread is active
    /// nothing changes.
    pub fn sleep(&mut self)
        requires
            old(self).wf(),
        ensures
            final(self).wf(),
            final(self)@ == old(self)@.sleep(),
    {
        proof {
            self@.lemma_sleep();
        }
        if let Some(tid) = self.current {
            self.pool.sleep_remove(tid);
            self.current = None;
        }
    }

    /// Wakes the sleeping thread `tid`; see `ThreadPool::wake_up`. No switch
    /// follows from it: the thread merely waits in the ready ordering.
    pub fn wake_up(&mut self, tid: Tid)
        requires
            old(self).wf(),
        ensures
            final(self).wf(),
            final(self)@ == old(self)@.wake_up(tid),
    {
        proof {
            self@.lemma_wake_up(tid);
        }
        self.pool.wake_up(tid);
    }

    /// Identifier of the running thread, or `IDLE_TID` while the idle thread
    /// is active.
    pub fn current_tid(&self) -> (tid: Tid)
        requires
            self.wf(),
        ensures
            tid == self@.current_tid(),
            tid == IDLE_TID <==> self@.current is None,
    {
        match self.current {
            Some(tid) => {
                proof {
                    self.pool.lemma_capacity();
                }
                tid
            },
            None => IDLE_TID,
        }
    }

    /// The pool of threads.
    pub fn pool(&self) -> (pool: &ThreadPool<S>)
        requires
            self.wf(),
        ensures
            pool.wf(),
            pool@ == self@.pool,
    {
        &self.pool
    }

    /// The idle thread.
    pub fn idle(&self) -> (idle: &Thread)
        ensures
            idle@ == self@.idle,
    {
        &self.idle
    }
}

} // verus!
