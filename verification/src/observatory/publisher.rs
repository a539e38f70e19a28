//! Publishers of events: the interface an event sink offers, one that keeps
//! the events in memory and one that drops them.

use vstd::prelude::*;
use crate::error::Error;
use crate::order::reversed;

verus! {

/// A sink for events of type `E`, for users to implement.
pub trait EventPublisher<E> {
    /// Publish one event.
    fn publish(&mut self, event: E) -> Result<(), Error>;

    /// Publish events one after another, stopping at the first failure.
    /// An empty batch publishes nothing and succeeds; otherwise whether it
    /// succeeds is up to `publish`.
    fn publish_batch(&mut self, events: Vec<E>) -> (r: Result<(), Error>)
        ensures
            events@.len() == 0 ==> r is Ok,
    {
        let n = events.len();
        let ghost batch = events@;
        let mut queue = reversed(events);
        let mut i: usize = 0;
        while i < n
            invariant
                i <= n,
                n == batch.len(),
                events@ == batch,
                queue@.len() == n - i,
            decreases n - i,
        {
            let event = queue.pop().unwrap();
            match self.publish(event) {
                Ok(()) => {},
                Err(e) => {
                    return Err(e);
                },
            }
            i = i + 1;
        }
        Ok(())
    }

    /// Send on what is held back; nothing by default.
    fn flush(&mut self) -> Result<(), Error> {
        Ok(())
    }
}

/// A publisher that keeps every event in memory, in the order published.
#[derive(Debug)]
pub struct InMemoryPublisher<E> {
    /// The published events, oldest first
    pub events: Vec<E>,
}

impl<E> InMemoryPublisher<E> {
    /// A publisher with no events.
    pub fn new() -> (p: Self)
        ensures
            p.events@ == Seq::<E>::empty(),
    {
        InMemoryPublisher { events: Vec::new() }
    }

    /// The published events, oldest first.
    pub fn get_events(&self) -> (r: &Vec<E>)
        ensures
            r@ == self.events@,
    {
        &self.events
    }

    /// The number of published events.
    pub fn count(&self) -> (n: usize)
        ensures
            n == self.events@.len(),
    {
        self.events.len()
    }

    /// Drop every event.
    pub fn clear(&mut self)
        ensures
            final(self).events@ == Seq::<E>::empty(),
    {
        self.events.clear();
    }
}

impl<E> EventPublisher<E> for InMemoryPublisher<E> {
    /// Keep the event behind the others.
    fn publish(&mut self, event: E) -> (r: Result<(), Error>)
        ensures
            r is Ok,
            final(self).events@ == old(self).events@.push(event),
    {
        self.events.push(event);
        Ok(())
    }

    /// Keep the events behind the others, in order.
    fn publish_batch(&mut self, events: Vec<E>) -> (r: Result<(), Error>)
        ensures
            r is Ok,
            final(self).events@ == old(self).events@ + events@,
    {
        let mut more = events;
        self.events.append(&mut more);
        Ok(())
    }
}

/// A publisher that drops every event.
#[derive(Debug, Clone, Copy, PartialEq, Eq, Structural)]
pub struct NoOpPublisher;

impl<E> EventPublisher<E> for NoOpPublisher {
    /// Drop the event.
    fn publish(&mut self, event: E) -> (r: Result<(), Error>)
        ensures
            r is Ok,
    {
        Ok(())
    }

    /// Drop the events.
    fn publish_batch(&mut self, events: Vec<E>) -> (r: Result<(), Error>)
        ensures
            r is Ok,
    {
        Ok(())
    }
}

} // verus!
