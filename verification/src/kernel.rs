//! The process-level interface of the kernel: one processor and one timer,
//! bound into a context that is made once at boot and handed to every call.
//!
//! What lies outside the scheduling core comes in as plain values: the bytes
//! of a program that was looked up, the reading of the monotonic clock. What
//! has to be done outside goes out as plain values too: the context to
//! switch into, the callbacks that fired.

use vstd::prelude::*;
use crate::processor::{Processor, ProcessorView, Switch};
use crate::scheduler::{RRScheduler, Scheduler};
use crate::structs::{ProgramView, Status, Thread, ThreadView};
use crate::thread_pool::{PoolView, ThreadPool};
use crate::timer::{due, Callback, Time, Timer, TimerEntry};
use crate::{ExitCode, Tid};

verus! {

/// Number of slots in the pool that `init` makes.
pub const MAX_THREADS: usize = 100;

/// Quantum, in ticks, of the round-robin policy that `init` makes.
pub const TIME_SLICE: usize = 1;

/// Why `execute` started no thread.
#[derive(Clone, Copy, Debug, PartialEq, Eq, Structural)]
pub enum ExecuteError {
    /// The program was not found.
    NotFound,
    /// The program was found, but every slot of the pool holds a live thread.
    PoolExhausted,
}

/// What one timer interrupt brought about.
#[derive(Debug)]
pub struct Ticked {
    /// The turn of the running thread has ended: switch to the context that
    /// `run` selects.
    pub reschedule: bool,
    /// The timer entries that fired, in the order in which they fired. The
    /// wake-ups among them have been carried out.
    pub fired: Vec<TimerEntry>,
}

/// The kernel context as a mathematical value.
#[verifier::ext_equal]
#[verifier::reject_recursive_types(S)]
pub struct KernelView<S: Scheduler> {
    /// The processor.
    pub cpu: ProcessorView<S>,
    /// The timer entries that have not fired, in the order in which they
    /// will.
    pub timer: Seq<TimerEntry>,
}

/// The processor after the callbacks of `fired` were carried out in order:
/// each wake-up wakes its thread, a notification changes nothing.
pub open spec fn fire<S: Scheduler>(cpu: ProcessorView<S>, fired: Seq<TimerEntry>) -> ProcessorView<
    S,
>
    decreases fired.len(),
{
    if fired.len() == 0 {
        cpu
    } else {
        let before = fire(cpu, fired.drop_last());
        match fired.last().callback {
            Callback::WakeUp(tid) => before.wake_up(tid),
            Callback::Notify(_) => before,
        }
    }
}

/// Carrying callbacks out keeps the processor's invariant.
pub proof fn lemma_fire<S: Scheduler>(cpu: ProcessorView<S>, fired: Seq<TimerEntry>)
    requires
        cpu.wf(),
    ensures
        fire(cpu, fired).wf(),
    decreases fired.len(),
{
    if fired.len() > 0 {
        lemma_fire(cpu, fired.drop_last());
        if let Callback::WakeUp(tid) = fired.last().callback {
            fire(cpu, fired.drop_last()).lemma_wake_up(tid);
        }
    }
}

impl<S: Scheduler> KernelView<S> {
    /// The invariant of the context: that of the processor, and a timer whose
    /// entries wait in the order of their deadlines.
    pub open spec fn wf(self) -> bool {
        &&& self.cpu.wf()
        &&& crate::timer::sorted(self.timer)
    }

    /// The user thread that `execute` makes of a program image.
    pub open spec fn user_thread(image: Seq<u8>, host_tid: Option<Tid>) -> ThreadView {
        ThreadView {
            tid: None,
            program: ProgramView::User { image },
            args: seq![0usize, 0usize, 0usize],
            host: host_tid,
        }
    }

    /// The context after `execute`: a program that was found runs as a new
    /// user thread if a slot is free; otherwise nothing changes.
    pub open spec fn execute(self, image: Option<Seq<u8>>, host_tid: Option<Tid>) -> Self {
        match image {
            Some(image) => KernelView {
                cpu: self.cpu.add_thread(Self::user_thread(image, host_tid)),
                ..self
            },
            None => self,
        }
    }

    /// The context after `tick`: the processor accounts the tick, then the
    /// timer entries that are due fire in order and leave the timer.
    pub open spec fn tick(self, now: Time) -> Self {
        let count = due(self.timer, now) as int;
        KernelView {
            cpu: fire(self.cpu.tick(), self.timer.take(count)),
            timer: self.timer.skip(count),
        }
    }

    /// The context after `run`.
    pub open spec fn run(self) -> Self {
        KernelView { cpu: self.cpu.run(), ..self }
    }

    /// The context after `exit`.
    pub open spec fn exit(self, code: ExitCode) -> Self {
        KernelView { cpu: self.cpu.exit(code), ..self }
    }

    /// The context after `yield_now`.
    pub open spec fn yield_now(self) -> Self {
        KernelView { cpu: self.cpu.yield_now(), ..self }
    }

    /// The context after `wake_up`.
    pub open spec fn wake_up(self, tid: Tid) -> Self {
        KernelView { cpu: self.cpu.wake_up(tid), ..self }
    }

    /// The context after `add_timer`: the callback waits behind every entry
    /// whose deadline is not after its own.
    pub open spec fn add_timer(self, now: Time, interval: Time, callback: Callback) -> Self {
        let deadline = (now + interval) as Time;
        KernelView {
            timer: self.timer.insert(
                due(self.timer, deadline) as int,
                TimerEntry { deadline, callback },
            ),
            ..self
        }
    }

    /// The context after `sleep`: a wake-up of the running thread waits in
    /// the timer and the thread sleeps. While the idle thread is active
    /// nothing changes.
    pub open spec fn sleep(self, now: Time, duration: Time) -> Self {
        match self.cpu.current {
            Some(tid) => {
                let armed = self.add_timer(now, duration, Callback::WakeUp(tid));
                KernelView { cpu: armed.cpu.sleep(), ..armed }
            },
            None => self,
        }
    }
}

/// Whether an entry of `fired` wakes `tid`.
pub open spec fn wakes(fired: Seq<TimerEntry>, tid: Tid) -> bool {
    exists|i: int| 0 <= i < fired.len() && (#[trigger] fired[i]).callback == Callback::WakeUp(tid)
}

/// Carrying callbacks out changes no thread but the sleeping ones they wake:
/// a sleeping thread is ready afterwards exactly when one of the callbacks
/// wakes it, every other thread keeps its state, and the current thread
/// stays the current one.
pub proof fn lemma_fire_status<S: Scheduler>(
    cpu: ProcessorView<S>,
    fired: Seq<TimerEntry>,
    tid: Tid,
)
    ensures
        fire(cpu, fired).current == cpu.current,
        fire(cpu, fired).pool.status(tid) == (if cpu.pool.status(tid) == Some(Status::Sleeping)
            && wakes(fired, tid) {
            Some(Status::Ready)
        } else {
            cpu.pool.status(tid)
        }),
    decreases fired.len(),
{
    if fired.len() > 0 {
        let earlier = fired.drop_last();
        lemma_fire_status(cpu, earlier, tid);
        if wakes(fired, tid) && !wakes(earlier, tid) {
            let i = choose|i: int|
                0 <= i < fired.len() && (#[trigger] fired[i]).callback == Callback::WakeUp(tid);
            if i < earlier.len() {
                assert(earlier[i].callback == Callback::WakeUp(tid));
            }
        }
    }
}

impl<S: Scheduler> KernelView<S> {
    /// State of the thread registered under `tid`.
    pub open spec fn status(self, tid: Tid) -> Option<Status> {
        self.cpu.pool.status(tid)
    }

    /// The thread `tid` sleeps, a wake-up for it waits in the timer at
    /// `deadline`, and no wake-up for it waits at an earlier time.
    pub open spec fn sleeps_until(self, tid: Tid, deadline: Time) -> bool {
        &&& self.status(tid) == Some(Status::Sleeping)
        &&& self.timer.contains(TimerEntry { deadline, callback: Callback::WakeUp(tid) })
        &&& forall|i: int|
            0 <= i < self.timer.len() && (#[trigger] self.timer[i]).callback == Callback::WakeUp(
                tid,
            ) ==> self.timer[i].deadline >= deadline
    }

    /// The context after one tick at each of `times`, in order.
    pub open spec fn ticks(self, times: Seq<Time>) -> Self
        decreases times.len(),
    {
        if times.len() == 0 {
            self
        } else {
            self.ticks(times.drop_last()).tick(times.last())
        }
    }

    /// `execute` keeps the invariant.
    pub proof fn lemma_execute(self, image: Option<Seq<u8>>, host_tid: Option<Tid>)
        requires
            self.wf(),
        ensures
            self.execute(image, host_tid).wf(),
    {
        if let Some(image) = image {
            self.cpu.lemma_add_thread(Self::user_thread(image, host_tid));
        }
    }

    /// `tick` keeps the invariant.
    pub proof fn lemma_tick(self, now: Time)
        requires
            self.wf(),
        ensures
            self.tick(now).wf(),
    {
        crate::timer::lemma_due_bound(self.timer, now);
        self.cpu.lemma_tick();
        lemma_fire(self.cpu.tick(), self.timer.take(due(self.timer, now) as int));
    }

    /// `run` keeps the invariant.
    pub proof fn lemma_run(self)
        requires
            self.wf(),
        ensures
            self.run().wf(),
    {
        self.cpu.lemma_run();
    }

    /// `exit` keeps the invariant.
    pub proof fn lemma_exit(self, code: ExitCode)
        requires
            self.wf(),
        ensures
            self.exit(code).wf(),
    {
        self.cpu.lemma_exit(code);
    }

    /// `yield_now` keeps the invariant.
    pub proof fn lemma_yield_now(self)
        requires
            self.wf(),
        ensures
            self.yield_now().wf(),
    {
        self.cpu.lemma_yield_now();
    }

    /// `wake_up` keeps the invariant.
    pub proof fn lemma_wake_up(self, tid: Tid)
        requires
            self.wf(),
        ensures
            self.wake_up(tid).wf(),
    {
        self.cpu.lemma_wake_up(tid);
    }

    /// `add_timer` keeps the invariant.
    pub proof fn lemma_add_timer(self, now: Time, interval: Time, callback: Callback)
        requires
            self.wf(),
        ensures
            self.add_timer(now, interval, callback).wf(),
    {
        crate::timer::lemma_insert_sorted(
            self.timer,
            TimerEntry { deadline: (now + interval) as Time, callback },
        );
    }

    /// `sleep` keeps the invariant.
    pub proof fn lemma_sleep(self, now: Time, duration: Time)
        requires
            self.wf(),
        ensures
            self.sleep(now, duration).wf(),
    {
        if let Some(tid) = self.cpu.current {
            self.lemma_add_timer(now, duration, Callback::WakeUp(tid));
            self.add_timer(now, duration, Callback::WakeUp(tid)).cpu.lemma_sleep();
        }
    }

    /// A thread that calls `sleep` sleeps until the deadline `now +
    /// duration`, provided that no wake-up for it is still waiting in the
    /// timer at an earlier time.
    pub proof fn lemma_sleep_sleeps(self, now: Time, duration: Time)
        requires
            self.wf(),
            self.cpu.current is Some,
            now + duration <= Time::MAX,
            forall|i: int|
                0 <= i < self.timer.len() && (#[trigger] self.timer[i]).callback
                    == Callback::WakeUp(self.cpu.current->0) ==> self.timer[i].deadline >= now
                    + duration,
        ensures
            self.sleep(now, duration).wf(),
            self.sleep(now, duration).sleeps_until(self.cpu.current->0, (now + duration) as Time),
    {
        let tid = self.cpu.current->0;
        let deadline = (now + duration) as Time;
        let slept = self.sleep(now, duration);
        self.lemma_sleep(now, duration);
        crate::timer::lemma_due_bound(self.timer, deadline);
        let at = due(self.timer, deadline) as int;
        assert(slept.timer[at] == TimerEntry { deadline, callback: Callback::WakeUp(tid) });
    }

    /// A tick before the deadline does not wake a sleeping thread: it still
    /// sleeps afterwards, and its wake-up still waits.
    pub proof fn lemma_tick_before_deadline(self, tid: Tid, deadline: Time, now: Time)
        requires
            self.wf(),
            self.sleeps_until(tid, deadline),
            now < deadline,
        ensures
            self.tick(now).wf(),
            self.tick(now).sleeps_until(tid, deadline),
    {
        self.lemma_tick(now);
        crate::timer::lemma_due_sorted(self.timer, now);
        let count = due(self.timer, now) as int;
        let entry = TimerEntry { deadline, callback: Callback::WakeUp(tid) };
        self.lemma_tick_spares(tid);
        lemma_fire_status(self.cpu.tick(), self.timer.take(count), tid);
        let at = choose|i: int| 0 <= i < self.timer.len() && self.timer[i] == entry;
        assert(self.timer.skip(count)[at - count] == entry);
    }

    /// A tick at or after the deadline wakes a sleeping thread: it is ready
    /// afterwards.
    pub proof fn lemma_tick_after_deadline(self, tid: Tid, deadline: Time, now: Time)
        requires
            self.wf(),
            self.sleeps_until(tid, deadline),
            now >= deadline,
        ensures
            self.tick(now).wf(),
            self.tick(now).status(tid) == Some(Status::Ready),
            self.tick(now).cpu.pool.ready().contains(tid),
    {
        self.lemma_tick(now);
        crate::timer::lemma_due_sorted(self.timer, now);
        let count = due(self.timer, now) as int;
        let entry = TimerEntry { deadline, callback: Callback::WakeUp(tid) };
        self.lemma_tick_spares(tid);
        lemma_fire_status(self.cpu.tick(), self.timer.take(count), tid);
        let at = choose|i: int| 0 <= i < self.timer.len() && self.timer[i] == entry;
        assert(self.timer.take(count)[at] == entry);
    }

    /// The processor's part of a tick leaves a thread that does not run as
    /// it is.
    proof fn lemma_tick_spares(self, tid: Tid)
        requires
            self.wf(),
            self.status(tid) != Some(Status::Running),
        ensures
            self.cpu.tick().pool.status(tid) == self.status(tid),
    {
    }

    /// Ticks before the deadline, however many, do not wake a sleeping
    /// thread.
    pub proof fn lemma_ticks_before_deadline(self, tid: Tid, deadline: Time, times: Seq<Time>)
        requires
            self.wf(),
            self.sleeps_until(tid, deadline),
            forall|i: int| 0 <= i < times.len() ==> times[i] < deadline,
        ensures
            self.ticks(times).wf(),
            self.ticks(times).sleeps_until(tid, deadline),
        decreases times.len(),
    {
        if times.len() > 0 {
            self.lemma_ticks_before_deadline(tid, deadline, times.drop_last());
            self.ticks(times.drop_last()).lemma_tick_before_deadline(tid, deadline, times.last());
        }
    }

    /// The thread `tid` is ready, or it sleeps and a wake-up for it waits in the
    /// timer at `deadline`.
    pub open spec fn wakes_by(self, tid: Tid, deadline: Time) -> bool {
        ||| self.status(tid) == Some(Status::Ready)
        ||| (self.status(tid) == Some(Status::Sleeping) && self.timer.contains(
            TimerEntry { deadline, callback: Callback::WakeUp(tid) },
        ))
    }

    /// A tick never puts a ready thread to sleep, and it never loses a
    /// wake-up: a tick before the deadline leaves the wake-up waiting unless
    /// the thread is ready already, and a tick at or after the deadline
    /// leaves the thread ready.
    pub proof fn lemma_tick_wakes_by(self, tid: Tid, deadline: Time, now: Time)
        requires
            self.wf(),
            self.wakes_by(tid, deadline),
        ensures
            self.tick(now).wf(),
            self.tick(now).wakes_by(tid, deadline),
            now >= deadline ==> self.tick(now).status(tid) == Some(Status::Ready),
    {
        self.lemma_tick(now);
        crate::timer::lemma_due_sorted(self.timer, now);
        let count = due(self.timer, now) as int;
        let entry = TimerEntry { deadline, callback: Callback::WakeUp(tid) };
        self.lemma_tick_spares(tid);
        lemma_fire_status(self.cpu.tick(), self.timer.take(count), tid);
        if self.status(tid) == Some(Status::Sleeping) {
            let at = choose|i: int| 0 <= i < self.timer.len() && self.timer[i] == entry;
            if at < count {
                assert(self.timer.take(count)[at] == entry);
            } else {
                assert(self.timer.skip(count)[at - count] == entry);
            }
        }
    }

    /// Ticks alone, however many, leave a thread that waits for the
    /// processor or for a wake-up waiting for one of the two.
    pub proof fn lemma_ticks_wakes_by(self, tid: Tid, deadline: Time, times: Seq<Time>)
        requires
            self.wf(),
            self.wakes_by(tid, deadline),
        ensures
            self.ticks(times).wf(),
            self.ticks(times).wakes_by(tid, deadline),
        decreases times.len(),
    {
        if times.len() > 0 {
            self.lemma_ticks_wakes_by(tid, deadline, times.drop_last());
            self.ticks(times.drop_last()).lemma_tick_wakes_by(tid, deadline, times.last());
        }
    }

    /// A thread that calls `sleep` is woken: whatever ticks come first, the
    /// thread is ready after any tick at or after `now + duration`, so that
    /// `run` can select it again.
    pub proof fn lemma_sleep_wakes(self, now: Time, duration: Time, first: Seq<Time>, late: Time)
        requires
            self.wf(),
            self.cpu.current is Some,
            now + duration <= Time::MAX,
            late >= now + duration,
        ensures
            self.sleep(now, duration).ticks(first).tick(late).status(self.cpu.current->0) == Some(
                Status::Ready,
            ),
            self.sleep(now, duration).ticks(first).tick(late).cpu.pool.ready().contains(
                self.cpu.current->0,
            ),
    {
        let tid = self.cpu.current->0;
        let deadline = (now + duration) as Time;
        let slept = self.sleep(now, duration);
        self.lemma_sleep(now, duration);
        crate::timer::lemma_due_bound(self.timer, deadline);
        assert(slept.timer[due(self.timer, deadline) as int] == TimerEntry {
            deadline,
            callback: Callback::WakeUp(tid),
        });
        slept.lemma_ticks_wakes_by(tid, deadline, first);
        slept.ticks(first).lemma_tick_wakes_by(tid, deadline, late);
    }

    /// Sleeping is a lower bound on the delay: after `sleep(now, duration)`
    /// the thread sleeps through every tick before `now + duration`, and the
    /// first tick at or after that deadline makes it ready, so that `run`
    /// can select it again. This holds provided that no wake-up for the
    /// thread was still waiting in the timer at an earlier time.
    pub proof fn lemma_sleep_then_tick(
        self,
        now: Time,
        duration: Time,
        early: Seq<Time>,
        late: Time,
    )
        requires
            self.wf(),
            self.cpu.current is Some,
            now + duration <= Time::MAX,
            forall|i: int|
                0 <= i < self.timer.len() && (#[trigger] self.timer[i]).callback
                    == Callback::WakeUp(self.cpu.current->0) ==> self.timer[i].deadline >= now
                    + duration,
            forall|i: int| 0 <= i < early.len() ==> early[i] < now + duration,
            late >= now + duration,
        ensures
            self.sleep(now, duration).ticks(early).status(self.cpu.current->0) == Some(
                Status::Sleeping,
            ),
            self.sleep(now, duration).ticks(early).tick(late).status(self.cpu.current->0) == Some(
                Status::Ready,
            ),
    {
        let tid = self.cpu.current->0;
        let deadline = (now + duration) as Time;
        self.lemma_sleep_sleeps(now, duration);
        let slept = self.sleep(now, duration);
        slept.lemma_ticks_before_deadline(tid, deadline, early);
        slept.ticks(early).lemma_tick_after_deadline(tid, deadline, late);
    }
}

/// The kernel context: the processor and the timer.
pub struct Kernel<S: Scheduler> {
    cpu: Processor<S>,
    timer: Timer,
}

impl<S: Scheduler> View for Kernel<S> {
    type V = KernelView<S>;

    closed spec fn view(&self) -> KernelView<S> {
        KernelView { cpu: self.cpu@, timer: self.timer@ }
    }
}

impl<S: Scheduler> Kernel<S> {
    /// The representation is consistent and the invariant of the context
    /// holds.
    pub closed spec fn wf(&self) -> bool {
        &&& self.cpu.wf()
        &&& self.timer.wf()
        &&& self@.wf()
    }

    /// Every well-formed context satisfies the invariant of its model.
    pub proof fn lemma_wf(&self)
        requires
            self.wf(),
        ensures
            self@.wf(),
    {
    }

    /// A context around a processor, with an empty timer.
    pub fn new(cpu: Processor<S>) -> (kernel: Self)
        requires
            cpu.wf(),
        ensures
            kernel.wf(),
            kernel@ == (KernelView { cpu: cpu@, timer: Seq::<TimerEntry>::empty() }),
    {
        proof {
            cpu.lemma_wf();
        }
        Kernel { cpu, timer: Timer::new() }
    }

    /// The processor.
    pub fn cpu(&self) -> (cpu: &Processor<S>)
        requires
            self.wf(),
        ensures
            cpu.wf(),
            cpu@ == self@.cpu,
    {
        &self.cpu
    }

    /// The timer.
    pub fn timer(&self) -> (timer: &Timer)
        requires
            self.wf(),
        ensures
            timer.wf(),
            timer@ == self@.timer,
    {
        &self.timer
    }
}

/// The context right after boot, before any program was started: a pool of
/// `MAX_THREADS` unused slots under a round-robin policy with a quantum of
/// `TIME_SLICE`, the idle thread active, the timer empty.
pub open spec fn booted(idle_entry: usize, idle_args: Seq<usize>) -> KernelView<RRScheduler> {
    KernelView {
        cpu: ProcessorView {
            pool: PoolView::<RRScheduler>::vacant(
                MAX_THREADS as nat,
                crate::scheduler::RRState {
                    ready: Seq::empty(),
                    quantum: TIME_SLICE as nat,
                    current: None,
                    left: TIME_SLICE as nat,
                },
            ),
            idle: ThreadView {
                tid: None,
                program: ProgramView::Kernel { entry: idle_entry },
                args: idle_args,
                host: None,
            },
            current: None,
        },
        timer: Seq::empty(),
    }
}

/// Sets the scheduling core up: a round-robin policy with a quantum of
/// `TIME_SLICE` in a pool of `MAX_THREADS` slots, an idle thread that starts
/// at `idle_entry` with `idle_args`, the idle thread active. Then starts the
/// shell whose image was looked up, as `execute` does.
pub fn init(idle_entry: usize, idle_args: [usize; 3], shell: Option<Vec<u8>>) -> (kernel: Kernel<
    RRScheduler,
>)
    ensures
        kernel.wf(),
        kernel@ == booted(idle_entry, idle_args@).execute(
            match shell {
                Some(image) => Some(image@),
                None => None,
            },
            None,
        ),
{
    let scheduler = RRScheduler::new(TIME_SLICE);
    let pool = ThreadPool::new(MAX_THREADS, scheduler);
    let mut idle = Thread::new_kernel(idle_entry);
    idle.append_initial_arguments(idle_args);
    let cpu = Processor::init(idle, pool);
    let mut kernel = Kernel::new(cpu);
    let _ = execute(&mut kernel, shell, None);
    kernel
}

/// Starts the program whose image was looked up as a new user thread,
/// created by `host_tid` if that is given, and returns the thread's
/// identifier. Fails, and changes nothing, when the lookup found nothing
/// (`image` is `None`) and when the pool has no free slot.
pub fn execute<S: Scheduler>(
    kernel: &mut Kernel<S>,
    image: Option<Vec<u8>>,
    host_tid: Option<Tid>,
) -> (started: Result<Tid, ExecuteError>)
    requires
        old(kernel).wf(),
    ensures
        final(kernel).wf(),
        final(kernel)@ == old(kernel)@.execute(
            match image {
                Some(image) => Some(image@),
                None => None,
            },
            host_tid,
        ),
        match started {
            Ok(tid) => image is Some && old(kernel)@.cpu.pool.first_free() == Some(tid),
            Err(ExecuteError::NotFound) => image is None && final(kernel)@ == old(kernel)@,
            Err(ExecuteError::PoolExhausted) => image is Some && old(
                kernel,
            )@.cpu.pool.first_free() is None && final(kernel)@ == old(kernel)@,
        },
{
    match image {
        Some(image) => {
            let thread = Thread::new_user(image, host_tid);
            let added = kernel.cpu.add_thread(thread);
            proof {
                kernel.cpu.lemma_wf();
            }
            match added {
                Ok(tid) => Ok(tid),
                Err(_) => Err(ExecuteError::PoolExhausted),
            }
        },
        None => Err(ExecuteError::NotFound),
    }
}

/// One timer interrupt at clock reading `now`. The processor accounts the
/// tick to the running thread; then every timer entry whose deadline is not
/// after `now` fires, in the order of the deadlines: a wake-up wakes its
/// thread, a notification is left to the caller. The result says whether the
/// running thread has to give way and which entries fired.
pub fn tick<S: Scheduler>(kernel: &mut Kernel<S>, now: Time) -> (ticked: Ticked)
    requires
        old(kernel).wf(),
    ensures
        final(kernel).wf(),
        final(kernel)@ == old(kernel)@.tick(now),
        ticked.reschedule == old(kernel)@.cpu.reschedules(),
        ticked.fired@ == old(kernel)@.timer.take(due(old(kernel)@.timer, now) as int),
{
    let reschedule = kernel.cpu.tick();
    let fired = kernel.timer.tick(now);
    let ghost ticked = kernel.cpu@;
    let n: usize = fired.len();
    let mut i: usize = 0;
    proof {
        kernel.cpu.lemma_wf();
    }
    while i < n
        invariant
            n == fired@.len(),
            i <= n,
            kernel.cpu.wf(),
            kernel.timer.wf(),
            kernel.timer@ == old(kernel)@.timer.skip(due(old(kernel)@.timer, now) as int),
            ticked.wf(),
            kernel.cpu@ == fire(ticked, fired@.take(i as int)),
        decreases n - i,
    {
        let entry = fired[i];
        proof {
            assert(fired@.take(i + 1).drop_last() =~= fired@.take(i as int));
        }
        match entry.callback {
            Callback::WakeUp(tid) => {
                kernel.cpu.wake_up(tid);
            },
            Callback::Notify(_) => {},
        }
        i = i + 1;
    }
    proof {
        assert(fired@.take(n as int) =~= fired@);
        kernel.cpu.lemma_wf();
    }
    Ticked { reschedule, fired }
}

/// One pass of the scheduling loop; see `Processor::run`. The caller
/// switches into the context that is returned, and calls again when control
/// comes back.
pub fn run<S: Scheduler>(kernel: &mut Kernel<S>) -> (target: Switch)
    requires
        old(kernel).wf(),
    ensures
        final(kernel).wf(),
        final(kernel)@ == old(kernel)@.run(),
        target == old(kernel)@.cpu.selects(),
{
    let target = kernel.cpu.run();
    proof {
        kernel.cpu.lemma_wf();
    }
    target
}

/// Terminates the running thread with `code`; see `Processor::exit`.
pub fn exit<S: Scheduler>(kernel: &mut Kernel<S>, code: ExitCode)
    requires
        old(kernel).wf(),
    ensures
        final(kernel).wf(),
        final(kernel)@ == old(kernel)@.exit(code),
{
    kernel.cpu.exit(code);
    proof {
        kernel.cpu.lemma_wf();
    }
}

/// Ends the turn of the running thread of its own accord; see
/// `Processor::yield_now`.
pub fn yield_now<S: Scheduler>(kernel: &mut Kernel<S>)
    requires
        old(kernel).wf(),
    ensures
        final(kernel).wf(),
        final(kernel)@ == old(kernel)@.yield_now(),
{
    kernel.cpu.yield_now();
    proof {
        kernel.cpu.lemma_wf();
    }
}

/// Wakes the sleeping thread `tid`; for any other `tid` nothing changes.
pub fn wake_up<S: Scheduler>(kernel: &mut Kernel<S>, tid: Tid)
    requires
        old(kernel).wf(),
    ensures
        final(kernel).wf(),
        final(kernel)@ == old(kernel)@.wake_up(tid),
{
    kernel.cpu.wake_up(tid);
    proof {
        kernel.cpu.lemma_wf();
    }
}

/// Identifier of the running thread, or `IDLE_TID` while the idle thread is
/// active.
pub fn current_tid<S: Scheduler>(kernel: &Kernel<S>) -> (tid: Tid)
    requires
        kernel.wf(),
    ensures
        tid == kernel@.cpu.current_tid(),
        tid == crate::processor::IDLE_TID <==> kernel@.cpu.current is None,
{
    kernel.cpu.current_tid()
}

/// Puts the running thread to sleep for at least `duration` from the clock
/// reading `now`: a wake-up for it is registered at `now + duration`, and
/// the thread sleeps until a tick at or after that deadline wakes it. While
/// the idle thread is active nothing changes.
pub fn sleep<S: Scheduler>(kernel: &mut Kernel<S>, now: Time, duration: Time)
    requires
        old(kernel).wf(),
        now + duration <= Time::MAX,
    ensures
        final(kernel).wf(),
        final(kernel)@ == old(kernel)@.sleep(now, duration),
{
    let tid: Tid = current_tid(kernel);
    if tid != crate::processor::IDLE_TID {
        add_timer(kernel, now, duration, Callback::WakeUp(tid));
        kernel.cpu.sleep();
        proof {
            kernel.cpu.lemma_wf();
        }
    }
}

/// Registers `callback` to fire once, at the first tick whose clock reading
/// is not before `now + interval`.
pub fn add_timer<S: Scheduler>(
    kernel: &mut Kernel<S>,
    now: Time,
    interval: Time,
    callback: Callback,
)
    requires
        old(kernel).wf(),
        now + interval <= Time::MAX,
    ensures
        final(kernel).wf(),
        final(kernel)@ == old(kernel)@.add_timer(now, interval, callback),
{
    let deadline: Time = now + interval;
    kernel.timer.add(deadline, callback);
}

} // verus!
