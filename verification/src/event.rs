//! Append-only broadcast event log with independent read cursors.
//!
//! A channel is an `EventWriter` holding the full publication history of
//! one payload type. Each `EventReader` owns a cursor into that history:
//! created at the current tail, it observes every event published after
//! its creation, each exactly once, in publication order, and never an
//! event published before it existed.

use vstd::prelude::*;

use std::marker::PhantomData;

verus! {

/// An event payload: a copyable, inspectable value.
pub trait EventArgs: Copy {

}

/// The writing end of a broadcast channel, owning the published history.
pub struct EventWriter<T> {
    events: Vec<T>,
}

impl<T: EventArgs> View for EventWriter<T> {
    type V = Seq<T>;

    closed spec fn view(&self) -> Seq<T> {
        self.events@
    }
}

impl<T: EventArgs> EventWriter<T> {
    /// A channel with no published events.
    pub fn new() -> (r: Self)
        ensures
            r@ == Seq::<T>::empty(),
    {
        EventWriter { events: Vec::new() }
    }

    /// Publishes one event at the tail of the channel.
    pub fn send(&mut self, event: T)
        ensures
            final(self)@ == old(self)@.push(event),
    {
        self.events.push(event);
    }

    /// The position one past the most recently published event: the
    /// position a reader created now would start from.
    pub fn last(&self) -> (r: usize)
        ensures
            r == self@.len(),
    {
        self.events.len()
    }
}

/// The reading end of a broadcast channel: a private cursor into one
/// writer's history. Readers are freely duplicated: a copy continues
/// from the same position, independently.
pub struct EventReader<T> {
    cursor: usize,
    marker: PhantomData<T>,
}

impl<T> Clone for EventReader<T> {
    fn clone(&self) -> (r: Self)
        ensures
            r == *self,
    {
        EventReader { cursor: self.cursor, marker: PhantomData }
    }
}

impl<T> Copy for EventReader<T> {

}

impl<T: EventArgs> EventReader<T> {
    /// The position of the next event this reader will observe.
    pub closed spec fn position(&self) -> int {
        self.cursor as int
    }

    /// A reader starting at the writer's current tail: events already
    /// published are never replayed to it.
    pub fn from_writer(writer: &EventWriter<T>) -> (r: Self)
        ensures
            r.position() == writer@.len(),
    {
        EventReader { cursor: writer.last(), marker: PhantomData }
    }

    /// Observes the next pending event, if one has been published, and
    /// advances past it; otherwise reports that no event is pending and
    /// stays in place.
    pub fn read(&mut self, writer: &EventWriter<T>) -> (r: Option<T>)
        ensures
            old(self).position() < writer@.len() ==> r == Some(writer@[old(self).position()])
                && final(self).position() == old(self).position() + 1,
            old(self).position() >= writer@.len() ==> r is None && final(self).position() == old(
                self,
            ).position(),
    {
        if self.cursor < writer.events.len() {
            let event = writer.events[self.cursor];
            self.cursor += 1;
            Some(event)
        } else {
            None
        }
    }

    /// Drains every pending event: the events published since this
    /// reader's position, each exactly once, in publication order.
    pub fn iter(&mut self, writer: &EventWriter<T>) -> (r: Vec<T>)
        requires
            old(self).position() <= writer@.len(),
        ensures
            r@ == writer@.skip(old(self).position()),
            final(self).position() == writer@.len(),
    {
        let mut r: Vec<T> = Vec::new();
        while self.cursor < writer.events.len()
            invariant
                old(self).position() <= self.position() <= writer@.len(),
                r@ == writer@.subrange(old(self).position(), self.position()),
            decreases writer@.len() - self.position(),
        {
            proof {
                assert(writer@.subrange(old(self).position(), self.position() + 1)
                    =~= writer@.subrange(old(self).position(), self.position()).push(
                    writer@[self.position()],
                ));
            }
            r.push(writer.events[self.cursor]);
            self.cursor += 1;
        }
        proof {
            assert(r@ =~= writer@.skip(old(self).position()));
        }
        r
    }
}

/// A reader observes exactly the events published after its creation.
///
/// When a reader is created, the channel holds `history` and the reader's
/// position is `history.len()`; once the writer has published `later` on
/// top, draining the reader yields `later` itself: every later event,
/// none of the earlier ones, in publication order.
pub proof fn lemma_no_replay<T>(history: Seq<T>, later: Seq<T>)
    ensures
        (history + later).skip(history.len() as int) == later,
{
    assert((history + later).skip(history.len() as int) =~= later);
}

} // verus!
