//! Pull-based schedules over a system set.
//!
//! A schedule hands out the indices of the systems to run, one at a time,
//! in registration order: a monotonically increasing counter bounded by
//! the set's size. This is a deliberate seam — a future dependency-aware
//! scheduler can hand out indices in another order without touching the
//! executor, which only pulls.

use vstd::prelude::*;

use crate::ecs::SystemSet;

verus! {

/// Produces a schedule for a system set each tick.
pub struct Scheduler;

/// The indices still to run, handed out front to back.
pub struct Schedule {
    systems: Vec<usize>,
    next: usize,
}

impl Schedule {
    /// The indices this schedule hands out, in order.
    pub closed spec fn ids(&self) -> Seq<usize> {
        self.systems@
    }

    /// How many indices have been handed out so far.
    pub closed spec fn position(&self) -> int {
        self.next as int
    }

    /// The indices not yet handed out, in the order they will come.
    pub open spec fn remaining(&self) -> Seq<usize> {
        self.ids().skip(self.position())
    }

    /// A schedule that runs every system of the set once, in
    /// registration order.
    pub fn from_system_set<S>(systems: &SystemSet<S>) -> (r: Self)
        ensures
            r.ids().len() == systems@.len(),
            forall|i: int| 0 <= i < r.ids().len() ==> r.ids()[i] == i,
            r.position() == 0,
    {
        Schedule { systems: systems.get_system_ids(), next: 0 }
    }

    /// Hands out the next index, or nothing once every index has been
    /// handed out.
    pub fn get_next(&mut self) -> (r: Option<usize>)
        ensures
            final(self).ids() == old(self).ids(),
            old(self).position() < old(self).ids().len() ==> r == Some(
                old(self).ids()[old(self).position()],
            ) && final(self).position() == old(self).position() + 1,
            old(self).position() >= old(self).ids().len() ==> r is None && final(self).position()
                == old(self).position(),
    {
        if self.next < self.systems.len() {
            let id = self.systems[self.next];
            self.next += 1;
            Some(id)
        } else {
            None
        }
    }

    /// Acknowledges a finished index. The in-order schedule needs no
    /// acknowledgement; a dependency-aware one would unblock successors
    /// here.
    pub fn report_done(&self, _id: usize) {
    }
}

impl Scheduler {
    /// The schedule for one run of the set: every system once, in
    /// registration order.
    pub fn get_schedule<S>(&mut self, systems: &SystemSet<S>) -> (r: Schedule)
        ensures
            r.ids().len() == systems@.len(),
            forall|i: int| 0 <= i < r.ids().len() ==> r.ids()[i] == i,
            r.position() == 0,
    {
        Schedule::from_system_set(systems)
    }
}

} // verus!
