use procsched::scheduler::RRScheduler;
use procsched::structs::{Status, Thread};
use procsched::thread_pool::{PoolError, ThreadPool};

fn pool(size: usize, quantum: usize) -> ThreadPool<RRScheduler> {
    ThreadPool::new(size, RRScheduler::new(quantum))
}

#[test]
fn pool_new_has_only_unused_slots() {
    let pool = pool(4, 1);
    assert_eq!(pool.capacity(), 4);
    assert_eq!(pool.occupancy(), 0);
    assert!(!pool.has_ready());
    for tid in 0..5 {
        assert_eq!(pool.status(tid), None);
        assert!(pool.retrieve(tid).is_none());
    }
}

#[test]
fn pool_add_assigns_the_least_free_identifier() {
    let mut pool = pool(4, 1);
    assert_eq!(pool.add(Thread::new_kernel(1)), Ok(0));
    assert_eq!(pool.add(Thread::new_kernel(2)), Ok(1));
    assert_eq!(pool.add(Thread::new_kernel(3)), Ok(2));
    assert_eq!(pool.status(0), Some(Status::Ready));
    assert_eq!(pool.status(1), Some(Status::Ready));
    assert_eq!(pool.status(2), Some(Status::Ready));
    assert_eq!(pool.status(3), None);
    assert_eq!(pool.occupancy(), 3);
    assert!(pool.has_ready());
}

#[test]
fn pool_add_fails_when_all_hundred_slots_are_taken() {
    let mut pool = pool(100, 1);
    for tid in 0..100 {
        assert_eq!(pool.add(Thread::new_kernel(tid)), Ok(tid));
    }
    assert_eq!(pool.occupancy(), 100);
    assert_eq!(pool.add(Thread::new_kernel(100)), Err(PoolError::PoolExhausted));
    assert_eq!(pool.occupancy(), 100);
    // a slot that is given up can be taken again
    assert_eq!(pool.acquire(), Some(0));
    pool.exit(0, 0);
    assert_eq!(pool.add(Thread::new_kernel(100)), Ok(0));
    assert_eq!(pool.add(Thread::new_kernel(101)), Err(PoolError::PoolExhausted));
}

#[test]
fn pool_of_no_slots_is_always_exhausted() {
    let mut pool = pool(0, 1);
    assert_eq!(pool.add(Thread::new_kernel(0)), Err(PoolError::PoolExhausted));
    assert_eq!(pool.acquire(), None);
}

#[test]
fn pool_retrieve_gives_the_registered_thread() {
    let mut pool = pool(2, 1);
    let mut thread = Thread::new_user(vec![1, 2, 3], Some(9));
    thread.append_initial_arguments([4, 5, 6]);
    assert_eq!(pool.add(Thread::new_kernel(0x10)), Ok(0));
    assert_eq!(pool.add(thread), Ok(1));
    let found = pool.retrieve(1).unwrap();
    assert_eq!(found.tid(), Some(1));
    assert_eq!(found.host(), Some(9));
    assert_eq!(found.arguments(), [4, 5, 6]);
    assert!(found.is_user());
    let found = pool.retrieve(0).unwrap();
    assert_eq!(found.tid(), Some(0));
    assert!(!found.is_user());
    assert!(pool.retrieve(2).is_none());
}

#[test]
fn pool_acquire_hands_out_ready_threads_in_order() {
    let mut pool = pool(4, 1);
    pool.add(Thread::new_kernel(0)).unwrap();
    pool.add(Thread::new_kernel(1)).unwrap();
    assert_eq!(pool.acquire(), Some(0));
    assert_eq!(pool.status(0), Some(Status::Running));
    assert_eq!(pool.status(1), Some(Status::Ready));
    assert_eq!(pool.acquire(), Some(1));
    assert_eq!(pool.status(1), Some(Status::Running));
    assert_eq!(pool.acquire(), None);
    assert!(!pool.has_ready());
}

#[test]
fn pool_acquire_on_empty_pool_returns_none() {
    let mut pool = pool(4, 1);
    assert_eq!(pool.acquire(), None);
    assert_eq!(pool.occupancy(), 0);
}

#[test]
fn pool_acquire_never_hands_a_thread_out_twice() {
    let mut pool = pool(8, 1);
    let mut handed_out: Vec<usize> = Vec::new();
    for round in 0..4 {
        pool.add(Thread::new_kernel(round)).unwrap();
        pool.add(Thread::new_kernel(round + 100)).unwrap();
        let tid = pool.acquire().unwrap();
        assert!(!handed_out.contains(&tid));
        assert_eq!(pool.status(tid), Some(Status::Running));
        handed_out.push(tid);
    }
    while let Some(tid) = pool.acquire() {
        assert!(!handed_out.contains(&tid));
        handed_out.push(tid);
    }
    assert_eq!(handed_out.len(), 8);
    for tid in 0..8 {
        assert_eq!(pool.status(tid), Some(Status::Running));
    }
}

#[test]
fn pool_tick_requeues_the_thread_when_its_quantum_is_used_up() {
    let mut pool = pool(4, 2);
    pool.add(Thread::new_kernel(0)).unwrap();
    pool.add(Thread::new_kernel(1)).unwrap();
    assert_eq!(pool.acquire(), Some(0));
    assert!(!pool.tick(0));
    assert_eq!(pool.status(0), Some(Status::Running));
    assert!(pool.tick(0));
    assert_eq!(pool.status(0), Some(Status::Ready));
    // thread 0 waits behind thread 1 now
    assert_eq!(pool.acquire(), Some(1));
    assert_eq!(pool.acquire(), Some(0));
}

#[test]
fn pool_tick_for_a_thread_that_does_not_run_changes_nothing() {
    let mut pool = pool(4, 1);
    pool.add(Thread::new_kernel(0)).unwrap();
    assert!(!pool.tick(0));
    assert!(!pool.tick(3));
    assert!(!pool.tick(77));
    assert_eq!(pool.status(0), Some(Status::Ready));
    assert_eq!(pool.acquire(), Some(0));
    pool.exit(0, 1);
    assert!(!pool.tick(0));
    assert_eq!(pool.status(0), Some(Status::Exited(1)));
    assert_eq!(pool.acquire(), None);
}

#[test]
fn pool_requeue_puts_a_running_thread_back() {
    let mut pool = pool(4, 5);
    pool.add(Thread::new_kernel(0)).unwrap();
    pool.add(Thread::new_kernel(1)).unwrap();
    assert_eq!(pool.acquire(), Some(0));
    pool.requeue(0);
    assert_eq!(pool.status(0), Some(Status::Ready));
    // a thread that does not run is left alone
    pool.requeue(1);
    pool.requeue(9);
    assert_eq!(pool.acquire(), Some(1));
    assert_eq!(pool.acquire(), Some(0));
    assert_eq!(pool.acquire(), None);
}

#[test]
fn pool_exit_gives_the_slot_up_and_keeps_the_code() {
    let mut pool = pool(4, 1);
    pool.add(Thread::new_kernel(0)).unwrap();
    pool.add(Thread::new_kernel(1)).unwrap();
    assert_eq!(pool.acquire(), Some(0));
    pool.exit(0, 42);
    assert_eq!(pool.status(0), Some(Status::Exited(42)));
    assert!(pool.retrieve(0).is_none());
    assert_eq!(pool.occupancy(), 1);
    // the exited thread is never handed out again
    assert_eq!(pool.acquire(), Some(1));
    assert_eq!(pool.acquire(), None);
    pool.wake_up(0);
    pool.requeue(0);
    assert!(!pool.tick(0));
    assert_eq!(pool.acquire(), None);
    assert_eq!(pool.status(0), Some(Status::Exited(42)));
}

#[test]
fn pool_exit_takes_a_ready_thread_out_of_the_ordering() {
    let mut pool = pool(4, 1);
    pool.add(Thread::new_kernel(0)).unwrap();
    pool.add(Thread::new_kernel(1)).unwrap();
    pool.add(Thread::new_kernel(2)).unwrap();
    pool.exit(1, 7);
    assert_eq!(pool.status(1), Some(Status::Exited(7)));
    assert_eq!(pool.acquire(), Some(0));
    assert_eq!(pool.acquire(), Some(2));
    assert_eq!(pool.acquire(), None);
}

#[test]
fn pool_exit_twice_keeps_the_first_code() {
    let mut pool = pool(4, 1);
    pool.add(Thread::new_kernel(0)).unwrap();
    pool.exit(0, 1);
    pool.exit(0, 2);
    assert_eq!(pool.status(0), Some(Status::Exited(1)));
    pool.exit(3, 5);
    assert_eq!(pool.status(3), None);
    pool.exit(1000, 5);
    assert_eq!(pool.occupancy(), 0);
}

#[test]
fn pool_exit_of_a_sleeping_thread_changes_nothing() {
    let mut pool = pool(4, 1);
    pool.add(Thread::new_kernel(0)).unwrap();
    pool.sleep_remove(0);
    pool.exit(0, 3);
    assert_eq!(pool.status(0), Some(Status::Sleeping));
    assert!(pool.retrieve(0).is_some());
}

#[test]
fn pool_identifier_is_reused_only_after_exit() {
    let mut pool = pool(3, 1);
    assert_eq!(pool.add(Thread::new_kernel(10)), Ok(0));
    assert_eq!(pool.add(Thread::new_kernel(11)), Ok(1));
    assert_eq!(pool.add(Thread::new_kernel(12)), Ok(2));
    assert_eq!(pool.acquire(), Some(0));
    assert_eq!(pool.acquire(), Some(1));
    pool.sleep_remove(0);
    pool.exit(1, 0);
    // 0 sleeps and 2 is ready: only 1 is free
    assert_eq!(pool.add(Thread::new_user(vec![9], None)), Ok(1));
    assert_eq!(pool.add(Thread::new_kernel(13)), Err(PoolError::PoolExhausted));
    assert_eq!(pool.status(1), Some(Status::Ready));
    assert!(pool.retrieve(1).unwrap().is_user());
    assert!(!pool.retrieve(0).unwrap().is_user());
    assert!(!pool.retrieve(2).unwrap().is_user());
}

#[test]
fn pool_sleep_remove_then_wake_up() {
    let mut pool = pool(4, 1);
    pool.add(Thread::new_kernel(0)).unwrap();
    pool.add(Thread::new_kernel(1)).unwrap();
    assert_eq!(pool.acquire(), Some(0));
    pool.sleep_remove(0);
    assert_eq!(pool.status(0), Some(Status::Sleeping));
    assert!(pool.retrieve(0).is_some());
    assert_eq!(pool.occupancy(), 2);
    pool.wake_up(0);
    assert_eq!(pool.status(0), Some(Status::Ready));
    assert_eq!(pool.acquire(), Some(1));
    assert_eq!(pool.acquire(), Some(0));
}

#[test]
fn pool_sleep_remove_takes_a_ready_thread_out_of_the_ordering() {
    let mut pool = pool(4, 1);
    pool.add(Thread::new_kernel(0)).unwrap();
    pool.add(Thread::new_kernel(1)).unwrap();
    pool.sleep_remove(0);
    assert_eq!(pool.status(0), Some(Status::Sleeping));
    assert_eq!(pool.acquire(), Some(1));
    assert_eq!(pool.acquire(), None);
    // sleeping again, or putting an unknown thread to sleep, changes nothing
    pool.sleep_remove(0);
    pool.sleep_remove(3);
    assert_eq!(pool.status(0), Some(Status::Sleeping));
    assert_eq!(pool.status(3), None);
}

#[test]
fn pool_wake_up_of_a_thread_that_does_not_sleep_changes_nothing() {
    let mut pool = pool(4, 1);
    pool.add(Thread::new_kernel(0)).unwrap();
    pool.add(Thread::new_kernel(1)).unwrap();
    pool.add(Thread::new_kernel(2)).unwrap();
    // ready
    pool.wake_up(0);
    pool.wake_up(0);
    // running
    assert_eq!(pool.acquire(), Some(0));
    pool.wake_up(0);
    assert_eq!(pool.status(0), Some(Status::Running));
    // exited
    pool.exit(0, 5);
    pool.wake_up(0);
    assert_eq!(pool.status(0), Some(Status::Exited(5)));
    // never used, and beyond the slots
    pool.wake_up(3);
    pool.wake_up(usize::MAX);
    assert_eq!(pool.status(3), None);
    // nothing was enqueued a second time
    assert_eq!(pool.acquire(), Some(1));
    assert_eq!(pool.acquire(), Some(2));
    assert_eq!(pool.acquire(), None);
}

#[test]
fn pool_wake_up_twice_enqueues_once() {
    let mut pool = pool(4, 1);
    pool.add(Thread::new_kernel(0)).unwrap();
    assert_eq!(pool.acquire(), Some(0));
    pool.sleep_remove(0);
    pool.wake_up(0);
    pool.wake_up(0);
    assert_eq!(pool.acquire(), Some(0));
    assert_eq!(pool.acquire(), None);
}
