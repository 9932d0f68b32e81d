use procsched::processor::{Processor, Switch, IDLE_TID};
use procsched::scheduler::RRScheduler;
use procsched::structs::{Status, Thread};
use procsched::thread_pool::{PoolError, ThreadPool};

fn processor(size: usize, quantum: usize) -> Processor<RRScheduler> {
    let pool = ThreadPool::new(size, RRScheduler::new(quantum));
    let mut idle = Thread::new_kernel(0xdead);
    idle.append_initial_arguments([1, 2, 3]);
    Processor::init(idle, pool)
}

#[test]
fn processor_starts_with_the_idle_thread_active() {
    let cpu = processor(4, 1);
    assert_eq!(cpu.current_tid(), IDLE_TID);
    assert_eq!(IDLE_TID, usize::MAX);
    assert!(!cpu.idle_main());
    assert_eq!(cpu.idle().arguments(), [1, 2, 3]);
    assert_eq!(cpu.idle().tid(), None);
    assert_eq!(cpu.pool().occupancy(), 0);
}

#[test]
fn processor_run_selects_idle_when_nothing_is_ready() {
    let mut cpu = processor(4, 1);
    assert_eq!(cpu.run(), Switch::Idle);
    assert_eq!(cpu.current_tid(), IDLE_TID);
    assert_eq!(cpu.run(), Switch::Idle);
}

#[test]
fn processor_run_selects_threads_in_turn() {
    let mut cpu = processor(4, 1);
    assert_eq!(cpu.add_thread(Thread::new_kernel(1)), Ok(0));
    assert_eq!(cpu.add_thread(Thread::new_kernel(2)), Ok(1));
    assert!(cpu.idle_main());
    assert_eq!(cpu.run(), Switch::Thread(0));
    assert_eq!(cpu.current_tid(), 0);
    assert_eq!(cpu.pool().status(0), Some(Status::Running));
    assert!(cpu.tick());
    assert_eq!(cpu.current_tid(), IDLE_TID);
    assert_eq!(cpu.pool().status(0), Some(Status::Ready));
    assert_eq!(cpu.run(), Switch::Thread(1));
    assert!(cpu.tick());
    assert_eq!(cpu.run(), Switch::Thread(0));
    assert!(cpu.tick());
    assert_eq!(cpu.run(), Switch::Thread(1));
}

#[test]
fn processor_run_puts_a_thread_that_still_runs_back_first() {
    let mut cpu = processor(4, 5);
    cpu.add_thread(Thread::new_kernel(1)).unwrap();
    cpu.add_thread(Thread::new_kernel(2)).unwrap();
    assert_eq!(cpu.run(), Switch::Thread(0));
    assert_eq!(cpu.run(), Switch::Thread(1));
    assert_eq!(cpu.pool().status(0), Some(Status::Ready));
    assert_eq!(cpu.pool().status(1), Some(Status::Running));
    assert_eq!(cpu.run(), Switch::Thread(0));
}

#[test]
fn processor_run_keeps_a_lone_thread_running() {
    let mut cpu = processor(4, 1);
    cpu.add_thread(Thread::new_kernel(1)).unwrap();
    assert_eq!(cpu.run(), Switch::Thread(0));
    assert_eq!(cpu.run(), Switch::Thread(0));
    assert_eq!(cpu.pool().status(0), Some(Status::Running));
}

#[test]
fn processor_never_runs_two_threads_at_once() {
    let mut cpu = processor(8, 2);
    for entry in 0..5 {
        cpu.add_thread(Thread::new_kernel(entry)).unwrap();
    }
    for step in 0..40 {
        match step % 4 {
            0 => {
                cpu.run();
            }
            1 => {
                cpu.tick();
            }
            2 => cpu.yield_now(),
            _ => {
                cpu.run();
            }
        }
        let mut running: Vec<usize> = Vec::new();
        for tid in 0..8 {
            if cpu.pool().status(tid) == Some(Status::Running) {
                running.push(tid);
            }
        }
        if cpu.current_tid() == IDLE_TID {
            assert!(running.is_empty());
        } else {
            assert_eq!(running, vec![cpu.current_tid()]);
        }
    }
}

#[test]
fn processor_tick_counts_the_quantum() {
    let mut cpu = processor(4, 3);
    cpu.add_thread(Thread::new_kernel(1)).unwrap();
    assert_eq!(cpu.run(), Switch::Thread(0));
    assert!(!cpu.tick());
    assert_eq!(cpu.current_tid(), 0);
    assert!(!cpu.tick());
    assert!(cpu.tick());
    assert_eq!(cpu.current_tid(), IDLE_TID);
    assert_eq!(cpu.pool().status(0), Some(Status::Ready));
}

#[test]
fn processor_tick_while_idle_changes_nothing() {
    let mut cpu = processor(4, 1);
    cpu.add_thread(Thread::new_kernel(1)).unwrap();
    assert!(!cpu.tick());
    assert_eq!(cpu.current_tid(), IDLE_TID);
    assert_eq!(cpu.pool().status(0), Some(Status::Ready));
    assert_eq!(cpu.run(), Switch::Thread(0));
}

#[test]
fn processor_yield_now_requeues_the_current_thread() {
    let mut cpu = processor(4, 5);
    cpu.add_thread(Thread::new_kernel(1)).unwrap();
    cpu.add_thread(Thread::new_kernel(2)).unwrap();
    assert_eq!(cpu.run(), Switch::Thread(0));
    cpu.yield_now();
    assert_eq!(cpu.current_tid(), IDLE_TID);
    assert_eq!(cpu.pool().status(0), Some(Status::Ready));
    assert_eq!(cpu.run(), Switch::Thread(1));
    cpu.yield_now();
    assert_eq!(cpu.run(), Switch::Thread(0));
}

#[test]
fn processor_yield_now_while_idle_changes_nothing() {
    let mut cpu = processor(4, 1);
    cpu.add_thread(Thread::new_kernel(1)).unwrap();
    cpu.yield_now();
    assert_eq!(cpu.current_tid(), IDLE_TID);
    assert_eq!(cpu.pool().status(0), Some(Status::Ready));
    assert_eq!(cpu.run(), Switch::Thread(0));
    assert_eq!(cpu.run(), Switch::Thread(0));
}

#[test]
fn processor_exit_ends_the_current_thread() {
    let mut cpu = processor(4, 1);
    cpu.add_thread(Thread::new_kernel(1)).unwrap();
    cpu.add_thread(Thread::new_kernel(2)).unwrap();
    assert_eq!(cpu.run(), Switch::Thread(0));
    cpu.exit(9);
    assert_eq!(cpu.current_tid(), IDLE_TID);
    assert_eq!(cpu.pool().status(0), Some(Status::Exited(9)));
    assert_eq!(cpu.run(), Switch::Thread(1));
    assert_eq!(cpu.run(), Switch::Thread(1));
    cpu.exit(0);
    assert_eq!(cpu.run(), Switch::Idle);
    assert_eq!(cpu.pool().occupancy(), 0);
}

#[test]
fn processor_exit_while_idle_changes_nothing() {
    let mut cpu = processor(4, 1);
    cpu.add_thread(Thread::new_kernel(1)).unwrap();
    cpu.exit(3);
    assert_eq!(cpu.pool().status(0), Some(Status::Ready));
    assert_eq!(cpu.current_tid(), IDLE_TID);
}

#[test]
fn processor_sleep_and_wake_up() {
    let mut cpu = processor(4, 1);
    cpu.add_thread(Thread::new_kernel(1)).unwrap();
    assert_eq!(cpu.run(), Switch::Thread(0));
    cpu.sleep();
    assert_eq!(cpu.current_tid(), IDLE_TID);
    assert_eq!(cpu.pool().status(0), Some(Status::Sleeping));
    assert!(!cpu.idle_main());
    assert_eq!(cpu.run(), Switch::Idle);
    cpu.wake_up(0);
    // waking makes the thread eligible, it switches nothing
    assert_eq!(cpu.current_tid(), IDLE_TID);
    assert_eq!(cpu.pool().status(0), Some(Status::Ready));
    assert!(cpu.idle_main());
    assert_eq!(cpu.run(), Switch::Thread(0));
}

#[test]
fn processor_wake_up_of_the_running_thread_changes_nothing() {
    let mut cpu = processor(4, 1);
    cpu.add_thread(Thread::new_kernel(1)).unwrap();
    assert_eq!(cpu.run(), Switch::Thread(0));
    cpu.wake_up(0);
    cpu.wake_up(IDLE_TID);
    assert_eq!(cpu.current_tid(), 0);
    assert_eq!(cpu.pool().status(0), Some(Status::Running));
    assert!(!cpu.idle_main());
}

#[test]
fn processor_add_thread_reports_an_exhausted_pool() {
    let mut cpu = processor(2, 1);
    assert_eq!(cpu.add_thread(Thread::new_kernel(1)), Ok(0));
    assert_eq!(cpu.add_thread(Thread::new_kernel(2)), Ok(1));
    assert_eq!(cpu.add_thread(Thread::new_kernel(3)), Err(PoolError::PoolExhausted));
    assert_eq!(cpu.pool().occupancy(), 2);
}
