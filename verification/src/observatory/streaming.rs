//! The replay buffer of an in-memory event stream: the newest events, in
//! the order they were published.

use vstd::prelude::*;

verus! {

/// The newest `size` elements of `s` (all of them when there are fewer),
/// in order.
pub open spec fn newest<T>(s: Seq<T>, size: nat) -> Seq<T> {
    if s.len() > size { s.skip(s.len() - size) } else { s }
}

/// The recent events of a stream, kept for replay: at most `buffer_size`
/// of them, the newest, oldest first.
#[derive(Debug)]
pub struct ReplayBuffer<T> {
    /// The buffered events, oldest first
    pub events: Vec<T>,
    /// Most events kept
    pub buffer_size: usize,
}

impl<T> ReplayBuffer<T> {
    /// An empty buffer keeping at most `buffer_size` events.
    pub fn new(buffer_size: usize) -> (b: Self)
        ensures
            b.events@ == Seq::<T>::empty(),
            b.buffer_size == buffer_size,
    {
        ReplayBuffer { events: Vec::new(), buffer_size }
    }

    /// Drop the oldest events beyond the buffer's size.
    fn trim(&mut self)
        ensures
            final(self).events@ == newest(old(self).events@, old(self).buffer_size as nat),
            final(self).buffer_size == old(self).buffer_size,
    {
        if self.events.len() > self.buffer_size {
            let excess = self.events.len() - self.buffer_size;
            let mut rest = self.events.split_off(excess);
            std::mem::swap(&mut rest, &mut self.events);
            assert(self.events@ =~= newest(old(self).events@, old(self).buffer_size as nat));
        }
    }

    /// Buffer a published event, dropping the oldest beyond the size.
    pub fn publish(&mut self, event: T)
        ensures
            final(self).events@ == newest(old(self).events@.push(event), old(self).buffer_size as nat),
            final(self).buffer_size == old(self).buffer_size,
    {
        self.events.push(event);
        self.trim();
    }

    /// Buffer published events in order, dropping the oldest beyond the
    /// size.
    pub fn publish_batch(&mut self, events: Vec<T>)
        ensures
            final(self).events@ == newest(old(self).events@ + events@, old(self).buffer_size as nat),
            final(self).buffer_size == old(self).buffer_size,
    {
        let mut more = events;
        self.events.append(&mut more);
        self.trim();
    }

    /// The buffered events, oldest first.
    pub fn get_buffered_events(&self) -> (r: &Vec<T>)
        ensures
            r@ == self.events@,
    {
        &self.events
    }

    /// Drop every buffered event.
    pub fn clear_buffer(&mut self)
        ensures
            final(self).events@ == Seq::<T>::empty(),
            final(self).buffer_size == old(self).buffer_size,
    {
        self.events.clear();
    }
}

/// A buffer holds at most its size, and publishing one by one keeps the
/// newest events just as publishing them at once does.
pub proof fn lemma_replay_keeps_newest<T>(s: Seq<T>, a: T, b: T, size: nat)
    ensures
        newest(s, size).len() <= size,
        newest(newest(s.push(a), size).push(b), size) == newest(s + seq![a, b], size),
{
    let once = newest(s.push(a), size);
    let twice = newest(once.push(b), size);
    let direct = newest(s + seq![a, b], size);
    assert(twice =~= direct);
}

} // verus!
