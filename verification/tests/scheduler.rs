use procsched::scheduler::{RRScheduler, Scheduler};

#[test]
fn rr_new_is_empty_and_keeps_its_quantum() {
    let rr = RRScheduler::new(5);
    assert_eq!(rr.len(), 0);
    assert_eq!(rr.quantum(), 5);
}

#[test]
fn rr_dequeue_is_first_in_first_out() {
    let mut rr = RRScheduler::new(1);
    rr.enqueue(7);
    rr.enqueue(3);
    rr.enqueue(5);
    assert_eq!(rr.len(), 3);
    assert_eq!(rr.dequeue(), Some(7));
    assert_eq!(rr.dequeue(), Some(3));
    assert_eq!(rr.dequeue(), Some(5));
    assert_eq!(rr.dequeue(), None);
    assert_eq!(rr.len(), 0);
}

#[test]
fn rr_dequeue_on_empty_returns_none() {
    let mut rr = RRScheduler::new(4);
    assert_eq!(rr.dequeue(), None);
    assert_eq!(rr.dequeue(), None);
}

#[test]
fn rr_tick_counts_down_the_quantum_and_resets_it() {
    let mut rr = RRScheduler::new(3);
    rr.enqueue(1);
    assert_eq!(rr.dequeue(), Some(1));
    assert!(!rr.tick(1));
    assert!(!rr.tick(1));
    assert!(rr.tick(1));
    assert!(!rr.tick(1));
    assert!(!rr.tick(1));
    assert!(rr.tick(1));
}

#[test]
fn rr_tick_with_quantum_one_expires_at_once() {
    let mut rr = RRScheduler::new(1);
    rr.enqueue(0);
    assert_eq!(rr.dequeue(), Some(0));
    assert!(rr.tick(0));
    assert!(rr.tick(0));
}

#[test]
fn rr_tick_with_quantum_zero_expires_at_once() {
    let mut rr = RRScheduler::new(0);
    rr.enqueue(0);
    assert_eq!(rr.dequeue(), Some(0));
    assert!(rr.tick(0));
}

#[test]
fn rr_tick_for_a_thread_without_a_slice_expires() {
    let mut rr = RRScheduler::new(3);
    assert!(rr.tick(9));
    rr.enqueue(1);
    rr.enqueue(2);
    assert_eq!(rr.dequeue(), Some(1));
    assert!(rr.tick(2));
    // the slice of thread 1 was not touched
    assert!(!rr.tick(1));
    assert!(!rr.tick(1));
    assert!(rr.tick(1));
}

#[test]
fn rr_dequeue_starts_a_full_slice() {
    let mut rr = RRScheduler::new(2);
    rr.enqueue(1);
    rr.enqueue(2);
    assert_eq!(rr.dequeue(), Some(1));
    assert!(!rr.tick(1));
    assert_eq!(rr.dequeue(), Some(2));
    assert!(!rr.tick(2));
    assert!(rr.tick(2));
}

#[test]
fn rr_tick_leaves_the_ready_ordering_alone() {
    let mut rr = RRScheduler::new(1);
    rr.enqueue(4);
    rr.enqueue(6);
    assert!(rr.tick(4));
    assert_eq!(rr.len(), 2);
    assert_eq!(rr.dequeue(), Some(4));
    assert_eq!(rr.dequeue(), Some(6));
}

#[test]
fn rr_remove_takes_the_thread_out_and_keeps_the_order() {
    let mut rr = RRScheduler::new(1);
    rr.enqueue(1);
    rr.enqueue(2);
    rr.enqueue(3);
    rr.enqueue(2);
    rr.remove(2);
    assert_eq!(rr.len(), 2);
    assert_eq!(rr.dequeue(), Some(1));
    assert_eq!(rr.dequeue(), Some(3));
    assert_eq!(rr.dequeue(), None);
}

#[test]
fn rr_remove_of_an_absent_thread_changes_nothing() {
    let mut rr = RRScheduler::new(1);
    rr.enqueue(1);
    rr.enqueue(2);
    rr.remove(9);
    assert_eq!(rr.len(), 2);
    assert_eq!(rr.dequeue(), Some(1));
    assert_eq!(rr.dequeue(), Some(2));
}

#[test]
fn rr_remove_gives_up_the_slice() {
    let mut rr = RRScheduler::new(3);
    rr.enqueue(1);
    assert_eq!(rr.dequeue(), Some(1));
    assert!(!rr.tick(1));
    rr.remove(1);
    assert!(rr.tick(1));
}

#[test]
fn rr_full_pass_serves_every_thread_exactly_once() {
    let tids: Vec<usize> = vec![4, 8, 15, 16, 23, 42];
    let mut rr = RRScheduler::new(1);
    for tid in tids.iter() {
        rr.enqueue(*tid);
    }
    let mut served: Vec<usize> = Vec::new();
    for _ in 0..tids.len() {
        let tid = rr.dequeue().unwrap();
        served.push(tid);
        rr.enqueue(tid);
    }
    assert_eq!(served, tids);
    // the ordering is back where it started
    for tid in tids.iter() {
        assert_eq!(rr.dequeue(), Some(*tid));
    }
    assert_eq!(rr.dequeue(), None);
}

#[test]
fn rr_turn_ends_with_the_tick_that_completes_the_quantum() {
    for quantum in 1..6usize {
        let mut rr = RRScheduler::new(quantum);
        rr.enqueue(3);
        assert_eq!(rr.dequeue(), Some(3));
        for n in 1..=quantum {
            assert_eq!(rr.tick(3), n == quantum);
        }
    }
}
