use vstd::prelude::*;
use crate::indexer::{LogMessage, LogMessageView};

verus! {

/// Capacity of the hand-off between the stream listener and the worker:
/// large enough to absorb bursty log arrival, small enough to exert
/// backpressure before memory grows unbounded.
pub const CHANNEL_BUFFER_SIZE: usize = 1000;

/// The bounded hand-off between the subscriber and the worker. The
/// subscriber is the only producer and the worker the only consumer, so the
/// arrival order of notifications is kept end to end.
pub struct BoundedQueue {
    items: Vec<LogMessage>,
    capacity: usize,
}

impl BoundedQueue {
    /// The queued notifications, oldest first.
    pub closed spec fn view(&self) -> Seq<LogMessageView> {
        Seq::new(self.items@.len(), |i: int| self.items@[i]@)
    }

    pub closed spec fn spec_capacity(&self) -> usize {
        self.capacity
    }

    /// The queue never holds more than its capacity.
    pub closed spec fn wf(&self) -> bool {
        self.items@.len() <= self.capacity && self.capacity >= 1
    }

    pub fn new(capacity: usize) -> (q: BoundedQueue)
        requires
            capacity >= 1,
        ensures
            q.wf(),
            q@ == Seq::<LogMessageView>::empty(),
            q.spec_capacity() == capacity,
    {
        let q = BoundedQueue { items: Vec::new(), capacity };
        proof {
            assert(q@ =~= Seq::<LogMessageView>::empty());
        }
        q
    }

    pub fn len(&self) -> (n: usize)
        ensures
            n == self@.len(),
    {
        self.items.len()
    }

    pub fn capacity(&self) -> (c: usize)
        ensures
            c == self.spec_capacity(),
    {
        self.capacity
    }

    /// Accept the notification when a slot is free; when the queue is full,
    /// refuse it and hand it back unchanged. Nothing is ever dropped
    /// silently under backpressure: the producer keeps the refused
    /// notification and waits for the worker to drain a slot.
    pub fn try_send(&mut self, msg: LogMessage) -> (r: Result<(), LogMessage>)
        requires
            old(self).wf(),
        ensures
            final(self).wf(),
            final(self).spec_capacity() == old(self).spec_capacity(),
            old(self)@.len() < old(self).spec_capacity() ==> r is Ok && final(self)@ == old(
                self,
            )@.push(msg@),
            old(self)@.len() >= old(self).spec_capacity() ==> final(self)@ == old(self)@ && (
            r matches Err(refused) && refused@ == msg@),
    {
        if self.items.len() < self.capacity {
            let ghost m = msg@;
            self.items.push(msg);
            proof {
                assert(self@ =~= old(self)@.push(m));
            }
            Ok(())
        } else {
            Err(msg)
        }
    }

    /// Take the oldest queued notification, in arrival order.
    pub fn pop_front(&mut self) -> (r: Option<LogMessage>)
        requires
            old(self).wf(),
        ensures
            final(self).wf(),
            final(self).spec_capacity() == old(self).spec_capacity(),
            old(self)@.len() == 0 ==> r is None && final(self)@ == old(self)@,
            old(self)@.len() > 0 ==> (r matches Some(front) && front@ == old(self)@[0]
                && final(self)@ == old(self)@.skip(1)),
    {
        if self.items.len() == 0 {
            None
        } else {
            let front = self.items.remove(0);
            proof {
                assert(self@ =~= old(self)@.skip(1));
            }
            Some(front)
        }
    }
}

} // verus!
