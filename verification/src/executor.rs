//! The executor: pulls indices from a schedule and runs the addressed
//! systems against the world.

use vstd::prelude::*;

use crate::ecs::{System, SystemSet};
use crate::schedule::Schedule;
use crate::world::World;

verus! {

/// Runs whatever a schedule hands out, in the order it hands it out. A
/// panic inside a system is not caught here: it propagates and ends the
/// tick loop.
pub struct Executor;

impl Executor {
    /// Pulls every remaining index from the schedule and runs each
    /// system against the world, in schedule order. Systems whose index
    /// the schedule does not hand out are untouched.
    #[verifier::loop_isolation(false)]
    pub fn run<V, S: System<V>>(
        &mut self,
        systems: &mut SystemSet<S>,
        world: &mut World<V>,
        schedule: &mut Schedule,
    )
        requires
            old(world).wf(),
            0 <= old(schedule).position() <= old(schedule).ids().len(),
            forall|i: int|
                0 <= i < old(schedule).ids().len() ==> #[trigger] old(schedule).ids()[i] < old(
                    systems,
                )@.len(),
        ensures
            final(world).wf(),
            final(systems)@.len() == old(systems)@.len(),
            final(schedule).ids() == old(schedule).ids(),
            final(schedule).position() == old(schedule).ids().len(),
            forall|j: int|
                0 <= j < old(systems)@.len() && !old(schedule).remaining().contains(j as usize)
                    ==> final(systems)@[j] == old(systems)@[j],
    {
        loop
            invariant
                world.wf(),
                systems@.len() == old(systems)@.len(),
                schedule.ids() == old(schedule).ids(),
                old(schedule).position() <= schedule.position() <= schedule.ids().len(),
                forall|i: int|
                    0 <= i < schedule.ids().len() ==> #[trigger] schedule.ids()[i]
                        < systems@.len(),
                forall|j: int|
                    0 <= j < old(systems)@.len() && !old(schedule).remaining().contains(j as usize)
                        ==> systems@[j] == old(systems)@[j],
            decreases schedule.ids().len() - schedule.position(),
        {
            let ghost position = schedule.position();
            match schedule.get_next() {
                Some(id) => {
                    proof {
                        let offset = position - old(schedule).position();
                        assert(position < old(schedule).ids().len());
                        assert(0 <= offset < old(schedule).remaining().len());
                        assert(old(schedule).remaining()[offset] == old(schedule).ids()[position]);
                        assert(old(schedule).remaining().contains(id));
                    }
                    systems.run_system_by_id(id, world);
                    schedule.report_done(id);
                },
                None => {
                    return ;
                },
            }
        }
    }
}

} // verus!
