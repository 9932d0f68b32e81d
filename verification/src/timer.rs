//! A deadline-ordered queue of one-shot callbacks.
//!
//! A callback is data: what is to be done once its deadline has passed. The
//! timer decides nothing but when; whoever drives it carries the fired
//! callbacks out, in the order in which they come.

use vstd::prelude::*;
use std::collections::VecDeque;
use crate::Tid;

verus! {

/// A point on the monotonic clock, or a span between two, in nanoseconds.
pub type Time = u128;

/// What is to be done when a timer entry fires.
#[derive(Clone, Copy, Debug, PartialEq, Eq, Structural)]
pub enum Callback {
    /// Wake the thread with this identifier.
    WakeUp(Tid),
    /// Hand this token back to whoever drives the timer.
    Notify(usize),
}

/// A callback and the time from which on it may fire.
#[derive(Clone, Copy, Debug, PartialEq, Eq, Structural)]
pub struct TimerEntry {
    pub deadline: Time,
    pub callback: Callback,
}

/// The deadlines never decrease along `s`.
pub open spec fn sorted(s: Seq<TimerEntry>) -> bool {
    forall|i: int, j: int| 0 <= i <= j < s.len() ==> s[i].deadline <= s[j].deadline
}

/// Number of entries at the head of `s` whose deadline is not after `now`.
pub open spec fn due(s: Seq<TimerEntry>, now: Time) -> nat
    decreases s.len(),
{
    if s.len() == 0 || s[0].deadline > now {
        0
    } else {
        1 + due(s.drop_first(), now)
    }
}

/// `due` never counts more entries than there are.
pub proof fn lemma_due_bound(s: Seq<TimerEntry>, now: Time)
    ensures
        due(s, now) <= s.len(),
    decreases s.len(),
{
    if s.len() > 0 && s[0].deadline <= now {
        lemma_due_bound(s.drop_first(), now);
    }
}

/// Counting may start behind any head whose deadlines have all passed.
pub proof fn lemma_due_split(s: Seq<TimerEntry>, now: Time, n: int)
    requires
        0 <= n <= s.len(),
        forall|i: int| 0 <= i < n ==> s[i].deadline <= now,
    ensures
        due(s, now) == n + due(s.skip(n), now),
    decreases n,
{
    if n == 0 {
        assert(s.skip(0) =~= s);
    } else {
        let rest = s.drop_first();
        lemma_due_split(rest, now, n - 1);
        assert(rest.skip(n - 1) =~= s.skip(n));
    }
}

/// In a sorted sequence the due entries are exactly those whose deadline is
/// not after `now`.
pub proof fn lemma_due_sorted(s: Seq<TimerEntry>, now: Time)
    requires
        sorted(s),
    ensures
        due(s, now) <= s.len(),
        forall|i: int| 0 <= i < due(s, now) ==> s[i].deadline <= now,
        forall|i: int| due(s, now) <= i < s.len() ==> s[i].deadline > now,
    decreases s.len(),
{
    if s.len() > 0 && s[0].deadline <= now {
        let rest = s.drop_first();
        lemma_due_sorted(rest, now);
        assert forall|i: int| 0 <= i < due(s, now) implies s[i].deadline <= now by {
            if i > 0 {
                assert(s[i] == rest[i - 1]);
            }
        }
        assert forall|i: int| due(s, now) <= i < s.len() implies s[i].deadline > now by {
            assert(s[i] == rest[i - 1]);
        }
    }
}

/// An entry that goes in behind the entries whose deadline is not after its
/// own leaves a sorted sequence sorted.
pub proof fn lemma_insert_sorted(s: Seq<TimerEntry>, entry: TimerEntry)
    requires
        sorted(s),
    ensures
        due(s, entry.deadline) <= s.len(),
        sorted(s.insert(due(s, entry.deadline) as int, entry)),
{
    lemma_due_sorted(s, entry.deadline);
    let at = due(s, entry.deadline) as int;
}

/// One tick late enough fires everything: when no deadline is after `now`,
/// every entry is due, so all fire, in the order of their deadlines, and none
/// is left.
pub proof fn lemma_tick_fires_all(s: Seq<TimerEntry>, now: Time)
    requires
        sorted(s),
        forall|i: int| 0 <= i < s.len() ==> s[i].deadline <= now,
    ensures
        due(s, now) == s.len(),
        s.take(due(s, now) as int) == s,
        s.skip(due(s, now) as int) == Seq::<TimerEntry>::empty(),
{
    lemma_due_sorted(s, now);
    assert(due(s, now) == s.len()) by {
        if due(s, now) < s.len() {
            assert(s[due(s, now) as int].deadline > now);
        }
    }
}

/// No entry fires twice: what one tick leaves behind has nothing due at the
/// same clock reading, nor at any earlier one, so a second tick fires
/// nothing.
pub proof fn lemma_tick_once(s: Seq<TimerEntry>, now: Time, again: Time)
    requires
        sorted(s),
        again <= now,
    ensures
        due(s, now) <= s.len(),
        due(s.skip(due(s, now) as int), again) == 0,
{
    lemma_due_sorted(s, now);
}

/// Every entry either fires at a tick or stays: the fired entries followed by
/// the remaining ones are the entries from before, in their order.
pub proof fn lemma_tick_partition(s: Seq<TimerEntry>, now: Time)
    ensures
        due(s, now) <= s.len(),
        s.take(due(s, now) as int) + s.skip(due(s, now) as int) == s,
{
    lemma_due_bound(s, now);
}

/// A one-shot timer: entries wait in the order of their deadlines, entries
/// with the same deadline in the order in which they were added.
#[derive(Debug)]
pub struct Timer {
    events: VecDeque<TimerEntry>,
}

impl View for Timer {
    type V = Seq<TimerEntry>;

    closed spec fn view(&self) -> Seq<TimerEntry> {
        self.events@
    }
}

impl Timer {
    /// The entries wait in the order of their deadlines.
    pub open spec fn wf(&self) -> bool {
        sorted(self@)
    }

    /// A timer with no entries.
    pub fn new() -> (timer: Timer)
        ensures
            timer.wf(),
            timer@ == Seq::<TimerEntry>::empty(),
    {
        Timer { events: VecDeque::new() }
    }

    /// Number of entries that have not fired.
    pub fn len(&self) -> (n: usize)
        ensures
            n == self@.len(),
    {
        self.events.len()
    }

    /// Whether no entry is waiting.
    pub fn is_empty(&self) -> (empty: bool)
        ensures
            empty == (self@.len() == 0),
    {
        self.events.len() == 0
    }

    /// The deadline of the entry that fires next, if one is waiting.
    pub fn next_deadline(&self) -> (next: Option<Time>)
        ensures
            next == (if self@.len() > 0 {
                Some(self@[0].deadline)
            } else {
                None
            }),
    {
        if self.events.len() > 0 {
            Some(self.events[0].deadline)
        } else {
            None
        }
    }

    /// Registers `callback` to fire no earlier than `deadline`. The entry
    /// goes behind every entry whose deadline is not after `deadline`, so
    /// that entries with one deadline fire in the order of their registration.
    pub fn add(&mut self, deadline: Time, callback: Callback)
        requires
            old(self).wf(),
        ensures
            final(self).wf(),
            due(old(self)@, deadline) <= old(self)@.len(),
            final(self)@ == old(self)@.insert(
                due(old(self)@, deadline) as int,
                TimerEntry { deadline, callback },
            ),
            forall|i: int|
                0 <= i < due(old(self)@, deadline) ==> old(self)@[i].deadline <= deadline,
            forall|i: int|
                due(old(self)@, deadline) <= i < old(self)@.len() ==> old(self)@[i].deadline
                    > deadline,
    {
        let n: usize = self.events.len();
        let mut at: usize = 0;
        while at < n && self.events[at].deadline <= deadline
            invariant
                n == self.events@.len(),
                at <= n,
                *self == *old(self),
                forall|i: int| 0 <= i < at ==> self.events@[i].deadline <= deadline,
            decreases n - at,
        {
            at = at + 1;
        }
        proof {
            lemma_due_split(self@, deadline, at as int);
            lemma_insert_sorted(self@, TimerEntry { deadline, callback });
            lemma_due_sorted(self@, deadline);
        }
        self.events.insert(at, TimerEntry { deadline, callback });
    }

    /// Fires every entry whose deadline is not after `now`: those entries
    /// leave the timer and are returned in the order in which they fire,
    /// which is the order of their deadlines and, among equal deadlines, of
    /// their registration. Every other entry stays.
    pub fn tick(&mut self, now: Time) -> (fired: Vec<TimerEntry>)
        requires
            old(self).wf(),
        ensures
            final(self).wf(),
            due(old(self)@, now) <= old(self)@.len(),
            fired@ == old(self)@.take(due(old(self)@, now) as int),
            final(self)@ == old(self)@.skip(due(old(self)@, now) as int),
            sorted(fired@),
            forall|i: int| 0 <= i < fired@.len() ==> fired@[i].deadline <= now,
            forall|i: int| 0 <= i < final(self)@.len() ==> final(self)@[i].deadline > now,
    {
        let mut fired: Vec<TimerEntry> = Vec::new();
        while self.events.len() > 0 && self.events[0].deadline <= now
            invariant
                fired@.len() <= old(self)@.len(),
                fired@ == old(self)@.take(fired@.len() as int),
                self.events@ == old(self)@.skip(fired@.len() as int),
                forall|i: int| 0 <= i < fired@.len() ==> old(self)@[i].deadline <= now,
            decreases self.events@.len(),
        {
            if let Some(entry) = self.events.pop_front() {
                fired.push(entry);
            }
        }
        proof {
            lemma_due_split(old(self)@, now, fired@.len() as int);
            lemma_due_sorted(old(self)@, now);
        }
        fired
    }
}

impl Default for Timer {
    /// A timer with no entries.
    fn default() -> (timer: Timer)
        ensures
            timer.wf(),
            timer@ == Seq::<TimerEntry>::empty(),
    {
        Timer::new()
    }
}

} // verus!
