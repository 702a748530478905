//! The queue of pending deliveries, in the order in which they fall due.

use vstd::prelude::*;
use std::collections::VecDeque;
use crate::bft::message::Message;

verus! {

/// A message on its way: when it falls due, who sent it, who gets it.
#[derive(Debug, Clone)]
pub struct Event {
    pub timestamp: u64,
    pub sender: usize,
    pub receiver: usize,
    pub message: Message,
}

impl PartialEq for Event {
    /// Two events are equal when they fall due together.
    fn eq(&self, other: &Self) -> (r: bool) {
        self.timestamp == other.timestamp
    }
}

impl vstd::std_specs::cmp::PartialEqSpecImpl for Event {
    open spec fn obeys_eq_spec() -> bool {
        true
    }

    open spec fn eq_spec(&self, other: &Self) -> bool {
        self.timestamp == other.timestamp
    }
}

impl Eq for Event {

}

/// Whether the events stand by timestamp, the earliest first.
pub open spec fn in_delivery_order(s: Seq<Event>) -> bool {
    forall|i: int, j: int| 0 <= i < j < s.len() ==> s[i].timestamp <= s[j].timestamp
}

/// Where an event that falls due at `timestamp` joins `s`: behind the last event
/// that falls due no later than it.
pub open spec fn arrival_slot(s: Seq<Event>, timestamp: u64) -> int
    decreases s.len(),
{
    if s.len() == 0 {
        0
    } else if s.last().timestamp <= timestamp {
        s.len() as int
    } else {
        arrival_slot(s.drop_last(), timestamp)
    }
}

/// The pending events. The next one to be delivered is the earliest; of two that
/// fall due together, the one scheduled first.
pub struct EventQueue {
    queue: VecDeque<Event>,
}

impl EventQueue {
    /// The pending events, in the order in which they will be delivered.
    pub closed spec fn pending(&self) -> Seq<Event> {
        self.queue@
    }

    /// The pending events stand in delivery order.
    pub open spec fn well_formed(&self) -> bool {
        in_delivery_order(self.pending())
    }

    /// A queue with nothing pending.
    pub fn new() -> (r: Self)
        ensures
            r.pending() == Seq::<Event>::empty(),
            r.well_formed(),
    {
        Self { queue: VecDeque::new() }
    }

    /// Adds `event` behind every pending event that falls due no later than it.
    pub fn schedule(&mut self, event: Event)
        ensures
            final(self).pending() == old(self).pending().insert(
                arrival_slot(old(self).pending(), event.timestamp),
                event,
            ),
            old(self).well_formed() ==> final(self).well_formed(),
    {
        let mut i: usize = self.queue.len();
        assert(self.queue@.take(i as int) =~= self.queue@);
        while i > 0 && self.queue[i - 1].timestamp > event.timestamp
            invariant
                i <= self.queue.len(),
                self.queue@ == old(self).queue@,
                arrival_slot(self.queue@, event.timestamp) == arrival_slot(
                    self.queue@.take(i as int),
                    event.timestamp,
                ),
            decreases i,
        {
            proof {
                assert(self.queue@.take(i as int).drop_last() =~= self.queue@.take(i - 1));
            }
            i -= 1;
        }
        proof {
            if i > 0 {
                assert(self.queue@.take(i as int).last() == self.queue@[i - 1]);
            }
            lemma_schedule_keeps_order(self.queue@, event);
        }
        self.queue.insert(i, event);
    }

    /// Takes the next event out of the queue, if there is one.
    pub fn process_next_event(&mut self) -> (r: Option<Event>)
        ensures
            match r {
                Some(event) => {
                    &&& old(self).pending().len() > 0
                    &&& event == old(self).pending()[0]
                    &&& final(self).pending() == old(self).pending().drop_first()
                    &&& old(self).well_formed() ==> forall|k: int|
                        0 <= k < final(self).pending().len() ==> event.timestamp <= (
                        #[trigger] final(self).pending()[k]).timestamp
                },
                None => {
                    &&& old(self).pending().len() == 0
                    &&& final(self).pending() == old(self).pending()
                },
            },
            old(self).well_formed() ==> final(self).well_formed(),
    {
        let r = self.queue.pop_front();
        proof {
            if r is Some {
                assert(self.queue@ =~= old(self).queue@.drop_first());
                if old(self).well_formed() {
                    assert forall|k: int| 0 <= k < self.queue@.len() implies r->0.timestamp <= (
                    #[trigger] self.queue@[k]).timestamp by {
                        assert(self.queue@[k] == old(self).queue@[k + 1]);
                    }
                    assert forall|i: int, j: int| 0 <= i < j < self.queue@.len() implies self.queue@[i].timestamp
                        <= self.queue@[j].timestamp by {
                        assert(self.queue@[i] == old(self).queue@[i + 1]);
                        assert(self.queue@[j] == old(self).queue@[j + 1]);
                    }
                }
            }
        }
        r
    }

    /// Whether nothing is pending.
    pub fn is_empty(&self) -> (r: bool)
        ensures
            r == (self.pending().len() == 0),
    {
        self.queue.len() == 0
    }
}

impl Default for EventQueue {
    fn default() -> (r: Self)
        ensures
            r.pending() == Seq::<Event>::empty(),
            r.well_formed(),
    {
        Self::new()
    }
}

/// Where an event joins: everything before its slot falls due no later than it,
/// everything from its slot on falls due later. So the pending events stay in
/// delivery order, and of two events that fall due together the one scheduled
/// first is delivered first.
pub proof fn lemma_schedule_keeps_order(s: Seq<Event>, event: Event)
    ensures
        0 <= arrival_slot(s, event.timestamp) <= s.len(),
        forall|k: int|
            arrival_slot(s, event.timestamp) <= k < s.len() ==> (#[trigger] s[k]).timestamp
                > event.timestamp,
        in_delivery_order(s) ==> forall|k: int|
            0 <= k < arrival_slot(s, event.timestamp) ==> (#[trigger] s[k]).timestamp
                <= event.timestamp,
        in_delivery_order(s) ==> in_delivery_order(
            s.insert(arrival_slot(s, event.timestamp), event),
        ),
    decreases s.len(),
{
    let slot = arrival_slot(s, event.timestamp);
    if s.len() > 0 && s.last().timestamp > event.timestamp {
        lemma_schedule_keeps_order(s.drop_last(), event);
        assert forall|k: int| slot <= k < s.len() implies (#[trigger] s[k]).timestamp
            > event.timestamp by {
            if k < s.len() - 1 {
                assert(s.drop_last()[k] == s[k]);
            }
        }
    }
    if in_delivery_order(s) {
        assert forall|k: int| 0 <= k < slot implies (#[trigger] s[k]).timestamp
            <= event.timestamp by {
            if s.len() > 0 && s.last().timestamp > event.timestamp {
                assert(in_delivery_order(s.drop_last())) by {
                    assert forall|i: int, j: int| 0 <= i < j < s.drop_last().len() implies s.drop_last()[i].timestamp
                        <= s.drop_last()[j].timestamp by {
                        assert(s.drop_last()[i] == s[i]);
                        assert(s.drop_last()[j] == s[j]);
                    }
                }
                assert(s.drop_last()[k] == s[k]);
            } else {
                assert(s[k].timestamp <= s.last().timestamp);
            }
        }
        let t = s.insert(slot, event);
        assert forall|i: int, j: int| 0 <= i < j < t.len() implies t[i].timestamp
            <= t[j].timestamp by {
            if i < slot && j > slot {
                assert(t[i] == s[i] && t[j] == s[j - 1]);
            } else if i < slot && j < slot {
                assert(t[i] == s[i] && t[j] == s[j]);
            } else if i > slot {
                assert(t[i] == s[i - 1] && t[j] == s[j - 1]);
            } else if i == slot {
                assert(t[j] == s[j - 1]);
            } else {
                assert(t[i] == s[i]);
            }
        }
    }
}

} // verus!
