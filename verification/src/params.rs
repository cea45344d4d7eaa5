//! Per-tick parameter adapters over the event log and the frame clock.
//!
//! A system keeps its adapter state — an event cursor, a writer handle,
//! the previous tick's timestamp — for its own lifetime, and materializes
//! a fresh borrowed view from that state on every tick. These are the
//! built-in adapters beyond the resource and query access in the other
//! modules.

use vstd::prelude::*;

use crate::event::{EventArgs, EventReader, EventWriter};

verus! {

/// A reading view of one event channel for the current tick: the
/// system's persistent cursor borrowed beside the channel it reads.
pub struct Event<'a, T> {
    /// The system's persistent cursor.
    pub reader: &'a mut EventReader<T>,
    /// The channel the cursor points into.
    pub channel: &'a EventWriter<T>,
}

impl<'a, T: EventArgs> Event<'a, T> {
    /// Pairs a system's persistent cursor with the channel for one tick.
    pub fn new(reader: &'a mut EventReader<T>, channel: &'a EventWriter<T>) -> (r: Self)
        ensures
            *r.reader == *old(reader),
            r.channel == channel,
            *final(reader) == *final(r.reader),
    {
        Event { reader, channel }
    }

    /// Observes the next pending event, if any, and advances past it.
    pub fn read(&mut self) -> (r: Option<T>)
        ensures
            old(self).reader.position() < old(self).channel@.len() ==> r == Some(
                old(self).channel@[old(self).reader.position()],
            ) && final(self).reader.position() == old(self).reader.position() + 1,
            old(self).reader.position() >= old(self).channel@.len() ==> r is None
                && final(self).reader.position() == old(self).reader.position(),
            final(self).channel == old(self).channel,
    {
        self.reader.read(self.channel)
    }

    /// Drains every pending event, each exactly once, in publication
    /// order.
    pub fn iter(&mut self) -> (r: Vec<T>)
        requires
            old(self).reader.position() <= old(self).channel@.len(),
        ensures
            r@ == old(self).channel@.skip(old(self).reader.position()),
            final(self).reader.position() == old(self).channel@.len(),
            final(self).channel == old(self).channel,
    {
        self.reader.iter(self.channel)
    }
}

/// A writing view of one event channel for the current tick.
pub struct EventTrigger<'a, T> {
    /// The channel written to.
    pub writer: &'a mut EventWriter<T>,
}

impl<'a, T: EventArgs> EventTrigger<'a, T> {
    /// Borrows the channel's writing end for one tick.
    pub fn new(writer: &'a mut EventWriter<T>) -> (r: Self)
        ensures
            *r.writer == *old(writer),
            *final(writer) == *final(r.writer),
    {
        EventTrigger { writer }
    }

    /// Publishes one event at the tail of the channel.
    pub fn send(&mut self, event: T)
        ensures
            final(self).writer@ == old(self).writer@.push(event),
    {
        self.writer.send(event);
    }
}

/// Frame timer state: the timestamp of the previous tick. Each use
/// reports the time elapsed since the previous use and advances the
/// state to now.
pub struct Tick {
    last_ms: u64,
}

impl Tick {
    /// The timestamp of the previous tick, in milliseconds.
    pub closed spec fn last_ms(&self) -> u64 {
        self.last_ms
    }

    /// A timer whose previous tick is now; nothing is promised about the
    /// clock's reading.
    pub fn new() -> Self {
        Tick { last_ms: now_millis() }
    }

    /// The milliseconds elapsed between a previous timestamp and `now`:
    /// their difference, or zero when the clock moved backwards.
    pub fn advance(&mut self, now_ms: u64) -> (r: u64)
        ensures
            final(self).last_ms() == now_ms,
            r == if now_ms >= old(self).last_ms() {
                (now_ms - old(self).last_ms()) as u64
            } else {
                0u64
            },
    {
        let last = self.last_ms;
        self.last_ms = now_ms;
        if now_ms >= last {
            now_ms - last
        } else {
            0
        }
    }

    /// Reads the clock and reports the milliseconds elapsed since the
    /// previous tick, advancing the state: whatever the clock read, the
    /// result is its distance from the previous timestamp, or zero when
    /// the clock moved backwards.
    pub fn delta(&mut self) -> (r: u64)
        ensures
            r == if final(self).last_ms() >= old(self).last_ms() {
                (final(self).last_ms() - old(self).last_ms()) as u64
            } else {
                0u64
            },
    {
        let now = now_millis();
        self.advance(now)
    }
}

/// Relies on std::time::SystemTime::now for the wall clock: milliseconds
/// since the Unix epoch, truncated to 64 bits; a clock before the epoch
/// reads as zero. No two readings are promised to be related.
#[verifier::external_body]
fn now_millis() -> u64 {
    match std::time::SystemTime::now().duration_since(std::time::UNIX_EPOCH) {
        Ok(elapsed) => elapsed.as_millis() as u64,
        Err(_) => 0,
    }
}

} // verus!
