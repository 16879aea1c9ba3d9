//! Discrete-event scheduler support: a time-ordered queue of pending message
//! deliveries. Messages come out earliest first; two messages due at the same
//! instant come out in insertion order, so a run is deterministic.

use vstd::prelude::*;
use crate::msg::Message;

verus! {

/// A message in flight: who sent it, whom it is for, and when the simulated
/// network delivers it.
#[derive(Debug, Clone, PartialEq, Eq)]
pub struct TimedMessage {
    pub delivery_time: u64,
    pub seq: u64,
    pub from: usize,
    pub to: usize,
    pub message: Message,
}

/// The queue's order: strictly earlier delivery time, or the same time but an
/// earlier insertion.
pub open spec fn delivered_before(a: TimedMessage, b: TimedMessage) -> bool {
    a.delivery_time < b.delivery_time || (a.delivery_time == b.delivery_time && a.seq < b.seq)
}

/// Pending deliveries, ordered earliest-first when popped. `next_seq` numbers
/// insertions so that ties in delivery time are broken deterministically.
#[derive(Debug, Clone, PartialEq, Eq)]
pub struct MessageQueue {
    pub items: Vec<TimedMessage>,
    pub next_seq: u64,
}

impl MessageQueue {
    /// Every queued sequence number was assigned before `next_seq`, and no
    /// two queued messages share one.
    pub open spec fn wf(self) -> bool {
        &&& forall|i: int|
            0 <= i < self.items@.len() ==> (#[trigger] self.items@[i]).seq < self.next_seq
        &&& forall|i: int, j: int|
            0 <= i < self.items@.len() && 0 <= j < self.items@.len() && i != j
                ==> self.items@[i].seq != self.items@[j].seq
    }

    pub fn new() -> (q: MessageQueue)
        ensures
            q.wf(),
            q.items@.len() == 0,
            q.next_seq == 0,
    {
        MessageQueue { items: Vec::new(), next_seq: 0 }
    }

    pub fn len(&self) -> (n: usize)
        ensures
            n == self.items@.len(),
    {
        self.items.len()
    }

    pub fn is_empty(&self) -> (b: bool)
        ensures
            b == (self.items@.len() == 0),
    {
        self.items.len() == 0
    }

    /// Enqueue a delivery, stamping it with the next sequence number.
    pub fn push(&mut self, delivery_time: u64, from: usize, to: usize, message: Message)
        requires
            old(self).wf(),
            old(self).next_seq < u64::MAX,
            old(self).items@.len() < usize::MAX,
        ensures
            final(self).wf(),
            final(self).items@ == old(self).items@.push(
                TimedMessage { delivery_time, seq: old(self).next_seq, from, to, message },
            ),
            final(self).next_seq == old(self).next_seq + 1,
    {
        let seq = self.next_seq;
        self.items.push(TimedMessage { delivery_time, seq, from, to, message });
        self.next_seq = seq + 1;
    }

    /// Remove and return the pending delivery that is due first — the one
    /// every other queued message would be delivered after — provided it is
    /// due by `now`. Nothing is removed otherwise.
    pub fn pop_due(&mut self, now: u64) -> (r: Option<TimedMessage>)
        requires
            old(self).wf(),
        ensures
            final(self).wf(),
            final(self).next_seq == old(self).next_seq,
            r is None ==> *final(self) == *old(self) && forall|j: int|
                0 <= j < old(self).items@.len() ==> (#[trigger] old(self).items@[j]).delivery_time
                    > now,
            r matches Some(m) ==> {
                &&& m.delivery_time <= now
                &&& exists|i: int|
                    0 <= i < old(self).items@.len() && old(self).items@[i] == m && final(
                        self).items@ == old(self).items@.remove(i)
                &&& forall|j: int|
                    0 <= j < old(self).items@.len() && old(self).items@[j] != m
                        ==> delivered_before(m, #[trigger] old(self).items@[j])
            },
    {
        if self.items.len() == 0 {
            return None;
        }
        let mut best: usize = 0;
        let mut i: usize = 1;
        while i < self.items.len()
            invariant
                self.wf(),
                self.items@.len() > 0,
                0 <= best < i <= self.items@.len(),
                forall|j: int|
                    0 <= j < i && j != best ==> delivered_before(
                        self.items@[best as int],
                        #[trigger] self.items@[j],
                    ),
            decreases self.items@.len() - i,
        {
            let earlier = self.items[i].delivery_time < self.items[best].delivery_time || (
            self.items[i].delivery_time == self.items[best].delivery_time && self.items[i].seq
                < self.items[best].seq);
            if earlier {
                best = i;
            }
            i = i + 1;
        }
        if self.items[best].delivery_time <= now {
            let ghost items0 = self.items@;
            let ghost b = best as int;
            let m = self.items.remove(best);
            proof {
                assert(items0[b] == m);
                assert forall|j: int| 0 <= j < items0.len() && items0[j] != m implies
                    delivered_before(m, #[trigger] items0[j]) by {
                    assert(j != b);
                }
                assert forall|i2: int, j2: int|
                    0 <= i2 < self.items@.len() && 0 <= j2 < self.items@.len() && i2 != j2 implies
                    self.items@[i2].seq != self.items@[j2].seq by {
                    let oi = if i2 < b {
                        i2
                    } else {
                        i2 + 1
                    };
                    let oj = if j2 < b {
                        j2
                    } else {
                        j2 + 1
                    };
                    assert(self.items@[i2] == items0[oi]);
                    assert(self.items@[j2] == items0[oj]);
                }
            }
            Some(m)
        } else {
            None
        }
    }
}

} // verus!
