//! Entity identities and the factory that mints them.

use vstd::prelude::*;

use crate::keymap::MapKey;

verus! {

/// A stable identifier for a logical simulation object: a pair of
/// (generation, index). The generation permits future slot reuse without
/// aliasing old references; current logic never reuses a slot, but the
/// two-field identity is preserved.
#[derive(Debug, Hash, PartialEq, Eq, Clone, Copy, Structural)]
pub struct Entity(pub u32, pub u32);

impl MapKey for Entity {
    fn key_eq(&self, other: &Self) -> (r: bool)
        ensures
            r <==> self == other,
    {
        self.0 == other.0 && self.1 == other.1
    }
}

/// The address of one component slot: a type key paired with the entity
/// holding the value.
#[derive(Debug, Hash, PartialEq, Eq, Clone, Copy, Structural)]
pub struct SlotKey(pub u64, pub Entity);

impl MapKey for SlotKey {
    fn key_eq(&self, other: &Self) -> (r: bool)
        ensures
            r <==> self == other,
    {
        self.0 == other.0 && self.1.key_eq(&other.1)
    }
}

/// Mints fresh entity identities.
pub trait EntityFactory {
    /// Produces the next entity of the current generation.
    fn make_entity(&mut self) -> Entity;

    /// Moves to the next generation and reports the generation that was
    /// current before the call.
    fn advance_generation(&mut self) -> u32;
}

/// Counter-based entity factory: indices increase by one per entity, and
/// both counters wrap around at the numeric limit.
pub struct DefaultEntityFactory {
    generation: u32,
    next_entity: u32,
}

impl DefaultEntityFactory {
    /// Starts at generation 0, index 0.
    pub fn new() -> (r: Self)
        ensures
            r.generation() == 0,
            r.next_index() == 0,
    {
        Self { generation: 0, next_entity: 0 }
    }

    /// The generation stamped on the next entity.
    pub closed spec fn generation(&self) -> u32 {
        self.generation
    }

    /// The index stamped on the next entity.
    pub closed spec fn next_index(&self) -> u32 {
        self.next_entity
    }
}

impl EntityFactory for DefaultEntityFactory {
    fn make_entity(&mut self) -> (r: Entity)
        ensures
            r == Entity(old(self).generation(), old(self).next_index()),
            final(self).generation() == old(self).generation(),
            final(self).next_index() == wrapping_inc(old(self).next_index()),
    {
        let index = self.next_entity;
        self.next_entity = if self.next_entity == u32::MAX {
            0
        } else {
            self.next_entity + 1
        };
        Entity(self.generation, index)
    }

    fn advance_generation(&mut self) -> (r: u32)
        ensures
            r == old(self).generation(),
            final(self).generation() == wrapping_inc(old(self).generation()),
            final(self).next_index() == old(self).next_index(),
    {
        let generation = self.generation;
        self.generation = if self.generation == u32::MAX {
            0
        } else {
            self.generation + 1
        };
        generation
    }
}

/// Successor with wrap-around at the numeric limit, matching the overflow
/// behavior of a hardware counter.
pub open spec fn wrapping_inc(x: u32) -> u32 {
    if x == u32::MAX {
        0
    } else {
        (x + 1) as u32
    }
}

} // verus!
