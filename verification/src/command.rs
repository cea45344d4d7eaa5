//! The deferred-command handle: queueing world mutations for the next
//! flush point.
//!
//! Some call sites should not mutate the world in place — their declared
//! access is read-only, or the mutation must not become visible to the
//! systems still pending in the current stage. The handle lets them queue
//! the mutation instead; the flow commits the queue between stages.

use vstd::prelude::*;

use crate::entity::Entity;
use crate::world::{Command, World};

verus! {

/// A queueing view of the world: mutations raised through it land in the
/// deferred queue, never in the live store.
pub struct WorldCommand<'a, V> {
    /// The world whose queue receives the commands.
    pub world: &'a mut World<V>,
}

impl<'a, V> WorldCommand<'a, V> {
    /// Borrows the world's queueing side for one tick.
    pub fn new(world: &'a mut World<V>) -> (r: Self)
        requires
            old(world).wf(),
        ensures
            *r.world == *old(world),
            *final(world) == *final(r.world),
    {
        WorldCommand { world }
    }

    /// Queues storing a resource at the next flush point; the live store
    /// does not change yet.
    pub fn add_resource(&mut self, key: u64, resource: V)
        requires
            old(self).world.wf(),
        ensures
            final(self).world.wf(),
            final(self).world@ == old(self).world@.with_command(
                Command::StoreResource(key, resource),
            ),
    {
        self.world.queue_command(Command::StoreResource(key, resource));
    }

    /// Queues storing a component at the next flush point; the live
    /// store does not change yet.
    pub fn add_component(&mut self, entity: Entity, type_key: u64, component: V)
        requires
            old(self).world.wf(),
        ensures
            final(self).world.wf(),
            final(self).world@ == old(self).world@.with_command(
                Command::StoreComponent(entity, type_key, component),
            ),
    {
        self.world.queue_command(Command::StoreComponent(entity, type_key, component));
    }

    /// Queues an arbitrary command.
    pub fn send(&mut self, command: Command<V>)
        requires
            old(self).world.wf(),
        ensures
            final(self).world.wf(),
            final(self).world@ == old(self).world@.with_command(command),
    {
        self.world.queue_command(command);
    }
}

} // verus!
