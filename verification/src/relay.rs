//! Bounded backpressure relay between the update normalizer and the
//! synchronizer. A full relay drops the offered event instead of blocking
//! the backend's delivery path; delivery order is preserved for the events
//! that are accepted.

use vstd::prelude::*;

use crate::telegram::NewUpdate;

verus! {

/// Default number of pending events the relay holds.
pub const DEFAULT_RELAY_CAPACITY: usize = 20;

/// Outcome of offering an event to the relay.
#[derive(Clone, Copy, Debug, PartialEq, Eq, Structural)]
pub enum SendOutcome {
    /// The event was enqueued.
    Accepted,
    /// The relay was full; the event was dropped and the operator should be
    /// warned.
    Dropped,
}

/// A bounded first-in-first-out queue of domain events.
pub struct Relay {
    queue: Vec<NewUpdate>,
    capacity: usize,
}

impl View for Relay {
    type V = Seq<NewUpdate>;

    closed spec fn view(&self) -> Seq<NewUpdate> {
        self.queue@
    }
}

impl Relay {
    /// The most events the relay ever holds.
    pub closed spec fn spec_capacity(&self) -> int {
        self.capacity as int
    }

    /// A relay never holds more events than its capacity.
    pub open spec fn wf(&self) -> bool {
        self@.len() <= self.spec_capacity()
    }

    /// Creates an empty relay that holds at most `capacity` pending events.
    pub fn new(capacity: usize) -> (r: Relay)
        ensures
            r.wf(),
            r@ == Seq::<NewUpdate>::empty(),
            r.spec_capacity() == capacity as int,
    {
        Relay { queue: Vec::new(), capacity }
    }

    /// Number of pending events.
    pub fn len(&self) -> (n: usize)
        ensures
            n as int == self@.len(),
    {
        self.queue.len()
    }

    /// Offers an event. If there is room before the capacity is reached the
    /// event is appended; otherwise it is dropped and `Dropped` is returned
    /// as the signal to warn the operator. The producer is never blocked.
    pub fn send(&mut self, update: NewUpdate) -> (o: SendOutcome)
        requires
            old(self).wf(),
        ensures
            final(self).wf(),
            final(self).spec_capacity() == old(self).spec_capacity(),
            old(self)@.len() < old(self).spec_capacity() ==> {
                &&& o == SendOutcome::Accepted
                &&& final(self)@ == old(self)@.push(update)
            },
            old(self)@.len() >= old(self).spec_capacity() ==> {
                &&& o == SendOutcome::Dropped
                &&& final(self)@ == old(self)@
            },
    {
        if self.queue.len() < self.capacity {
            self.queue.push(update);
            SendOutcome::Accepted
        } else {
            SendOutcome::Dropped
        }
    }

    /// Takes the oldest pending event, if any.
    pub fn recv(&mut self) -> (r: Option<NewUpdate>)
        requires
            old(self).wf(),
        ensures
            final(self).wf(),
            final(self).spec_capacity() == old(self).spec_capacity(),
            old(self)@.len() == 0 ==> r is None && final(self)@ == old(self)@,
            old(self)@.len() > 0 ==> {
                &&& r == Option::Some(old(self)@[0])
                &&& final(self)@ == old(self)@.drop_first()
            },
    {
        if self.queue.len() == 0 {
            Option::None
        } else {
            let u = self.queue.remove(0);
            Option::Some(u)
        }
    }
}

} // verus!
