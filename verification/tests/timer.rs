use procsched::timer::{Callback, Timer, TimerEntry};

fn entry(deadline: u128, callback: Callback) -> TimerEntry {
    TimerEntry { deadline, callback }
}

#[test]
fn timer_new_and_default_are_empty() {
    let timer = Timer::new();
    assert!(timer.is_empty());
    assert_eq!(timer.len(), 0);
    assert_eq!(timer.next_deadline(), None);
    let timer = Timer::default();
    assert!(timer.is_empty());
}

#[test]
fn timer_fires_in_deadline_order() {
    let mut timer = Timer::new();
    timer.add(30, Callback::Notify(3));
    timer.add(10, Callback::Notify(1));
    timer.add(20, Callback::WakeUp(2));
    assert_eq!(timer.len(), 3);
    assert_eq!(timer.next_deadline(), Some(10));
    let fired = timer.tick(30);
    assert_eq!(
        fired,
        vec![
            entry(10, Callback::Notify(1)),
            entry(20, Callback::WakeUp(2)),
            entry(30, Callback::Notify(3)),
        ]
    );
    assert!(timer.is_empty());
}

#[test]
fn timer_equal_deadlines_fire_in_insertion_order() {
    let mut timer = Timer::new();
    timer.add(5, Callback::Notify(1));
    timer.add(7, Callback::Notify(9));
    timer.add(5, Callback::Notify(2));
    timer.add(5, Callback::Notify(3));
    let fired = timer.tick(5);
    assert_eq!(
        fired,
        vec![
            entry(5, Callback::Notify(1)),
            entry(5, Callback::Notify(2)),
            entry(5, Callback::Notify(3)),
        ]
    );
    assert_eq!(timer.len(), 1);
    assert_eq!(timer.next_deadline(), Some(7));
}

#[test]
fn timer_tick_before_every_deadline_fires_nothing() {
    let mut timer = Timer::new();
    timer.add(10, Callback::WakeUp(0));
    timer.add(20, Callback::WakeUp(1));
    assert!(timer.tick(9).is_empty());
    assert_eq!(timer.len(), 2);
}

#[test]
fn timer_deadline_equal_to_now_fires() {
    let mut timer = Timer::new();
    timer.add(10, Callback::WakeUp(0));
    assert_eq!(timer.tick(10), vec![entry(10, Callback::WakeUp(0))]);
}

#[test]
fn timer_fires_only_what_is_due_and_keeps_the_rest() {
    let mut timer = Timer::new();
    timer.add(10, Callback::Notify(1));
    timer.add(20, Callback::Notify(2));
    timer.add(30, Callback::Notify(3));
    assert_eq!(
        timer.tick(25),
        vec![entry(10, Callback::Notify(1)), entry(20, Callback::Notify(2))]
    );
    assert_eq!(timer.len(), 1);
    assert_eq!(timer.next_deadline(), Some(30));
    assert_eq!(timer.tick(40), vec![entry(30, Callback::Notify(3))]);
}

#[test]
fn timer_second_tick_fires_nothing() {
    let mut timer = Timer::new();
    timer.add(1, Callback::Notify(1));
    timer.add(2, Callback::Notify(2));
    timer.add(3, Callback::Notify(3));
    assert_eq!(timer.tick(3).len(), 3);
    assert!(timer.tick(3).is_empty());
    assert!(timer.tick(100).is_empty());
}

#[test]
fn timer_tick_on_empty_timer_fires_nothing() {
    let mut timer = Timer::new();
    assert!(timer.tick(u128::MAX).is_empty());
}

#[test]
fn timer_takes_the_largest_deadline() {
    let mut timer = Timer::new();
    timer.add(u128::MAX, Callback::Notify(1));
    timer.add(0, Callback::Notify(0));
    assert_eq!(timer.tick(0), vec![entry(0, Callback::Notify(0))]);
    assert!(timer.tick(u128::MAX - 1).is_empty());
    assert_eq!(timer.tick(u128::MAX), vec![entry(u128::MAX, Callback::Notify(1))]);
}

#[test]
fn timer_add_after_tick_keeps_order() {
    let mut timer = Timer::new();
    timer.add(10, Callback::Notify(1));
    timer.add(30, Callback::Notify(3));
    assert_eq!(timer.tick(10).len(), 1);
    timer.add(20, Callback::Notify(2));
    timer.add(30, Callback::Notify(4));
    assert_eq!(
        timer.tick(30),
        vec![
            entry(20, Callback::Notify(2)),
            entry(30, Callback::Notify(3)),
            entry(30, Callback::Notify(4)),
        ]
    );
}
