//! The input bridge: a bounded, non-blocking queue carrying keyboard edge
//! events from the event-listener context into the frame step.  Pushing
//! never blocks the listener: on a full queue the event is dropped and the
//! drop is counted; the driver pops at most one event per frame, so a
//! backlog is deliberately discarded over time — only the most recent
//! direction matters.

use vstd::prelude::*;

verus! {

/// Whether a key went down or came up.
#[derive(Clone, Copy, Debug, PartialEq, Eq, Structural)]
pub enum KeyEdge {
    Down,
    Up,
}

/// One keyboard edge event: the edge and the key's identifier string.
#[derive(Clone, Debug)]
pub struct KeyEvent {
    pub edge: KeyEdge,
    pub key: String,
}

/// A bounded queue of pending key events plus a count of events that were
/// dropped because the queue was full.
#[derive(Debug)]
pub struct InputBridge {
    pub events: Vec<KeyEvent>,
    pub capacity: usize,
    pub dropped: u64,
}

impl InputBridge {
    /// Structural validity: never more pending events than the capacity.
    pub open spec fn wf(self) -> bool {
        self.events@.len() <= self.capacity
    }

    /// An empty bridge holding at most `capacity` pending events.
    pub fn new(capacity: usize) -> (b: Self)
        ensures
            b.events@ == Seq::<KeyEvent>::empty(),
            b.capacity == capacity,
            b.dropped == 0,
            b.wf(),
    {
        Self { events: Vec::new(), capacity, dropped: 0 }
    }

    /// Offers one event without ever blocking: accepted and appended while
    /// there is room, dropped and counted once the queue is full.
    pub fn push(&mut self, event: KeyEvent) -> (accepted: bool)
        requires
            old(self).wf(),
        ensures
            final(self).capacity == old(self).capacity,
            accepted <==> old(self).events@.len() < old(self).capacity,
            accepted ==> final(self).events@ == old(self).events@.push(event)
                && final(self).dropped == old(self).dropped,
            !accepted ==> final(self).events@ == old(self).events@ && final(self).dropped == (
            if old(self).dropped < u64::MAX {
                old(self).dropped + 1
            } else {
                old(self).dropped as int
            }),
            final(self).wf(),
    {
        if self.events.len() < self.capacity {
            self.events.push(event);
            true
        } else {
            if self.dropped < u64::MAX {
                self.dropped = self.dropped + 1;
            }
            false
        }
    }

    /// Takes the oldest pending event, if any, without blocking: an empty
    /// queue is not an error.
    pub fn pop(&mut self) -> (e: Option<KeyEvent>)
        requires
            old(self).wf(),
        ensures
            final(self).capacity == old(self).capacity,
            final(self).dropped == old(self).dropped,
            old(self).events@.len() == 0 ==> e is None
                && final(self).events@ == old(self).events@,
            old(self).events@.len() > 0 ==> e == Some(old(self).events@[0])
                && final(self).events@ == old(self).events@.skip(1),
            final(self).wf(),
    {
        if self.events.len() > 0 {
            let ghost before = self.events@;
            let ev = self.events.remove(0);
            proof {
                assert(before.remove(0) =~= before.skip(1));
            }
            Some(ev)
        } else {
            None
        }
    }
}

} // verus!
