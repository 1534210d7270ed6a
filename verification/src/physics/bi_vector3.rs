//! A force together with the torque it makes about the center of mass.

use crate::fixed::ONE;
use crate::vector::{part_of, plus, Triple, Wide3};
use vstd::prelude::*;

verus! {

/// Force (N) and torque (N m) in world axes.
#[derive(Clone, Copy, Debug, PartialEq, Eq, Structural)]
pub struct BiVector3 {
    pub force: Wide3,
    pub torque: Wide3,
}

impl Default for BiVector3 {
    /// Nothing acts.
    fn default() -> (none: Self)
        ensures
            none.force.parts() == (0int, 0int, 0int),
            none.torque.parts() == (0int, 0int, 0int),
    {
        BiVector3 { force: Wide3 { x: 0, y: 0, z: 0 }, torque: Wide3 { x: 0, y: 0, z: 0 } }
    }
}

/// Far more than anything that acts on an aircraft.
pub const LIMIT: i128 = 20_000_000_000_000_000_000_000_000_000_000_000;

impl BiVector3 {
    /// Force and torque stay far within range.
    pub open spec fn moderate(self) -> bool {
        self.force.within(LIMIT as int) && self.torque.within(LIMIT as int)
    }

    /// Both together.
    pub fn plus(&self, rhs: &BiVector3) -> (r: BiVector3)
        requires
            self.moderate(),
            rhs.moderate(),
        ensures
            r.force.parts() == plus(self.force.parts(), rhs.force.parts()),
            r.torque.parts() == plus(self.torque.parts(), rhs.torque.parts()),
    {
        BiVector3 {
            force: sum(&self.force, &rhs.force),
            torque: sum(&self.torque, &rhs.torque),
        }
    }

    /// Adds another to this one.
    pub fn accumulate(&mut self, rhs: &BiVector3)
        requires
            old(self).moderate(),
            rhs.moderate(),
        ensures
            final(self).force.parts() == plus(old(self).force.parts(), rhs.force.parts()),
            final(self).torque.parts() == plus(old(self).torque.parts(), rhs.torque.parts()),
    {
        *self = self.plus(rhs);
    }

    /// Both by a factor of up to one either way.
    pub fn times(&self, factor: i64) -> (r: BiVector3)
        requires
            self.force.within(2 * LIMIT),
            self.torque.within(2 * LIMIT),
            -ONE <= factor <= ONE,
        ensures
            r.force.parts() == share(self.force.parts(), factor as int),
            r.torque.parts() == share(self.torque.parts(), factor as int),
    {
        BiVector3 {
            force: part_of(&self.force, factor),
            torque: part_of(&self.torque, factor),
        }
    }
}

/// A vector by a factor.
pub open spec fn share(v: Triple, factor: int) -> Triple {
    (
        (v.0 * factor) / (ONE as int),
        (v.1 * factor) / (ONE as int),
        (v.2 * factor) / (ONE as int),
    )
}

fn sum(a: &Wide3, b: &Wide3) -> (r: Wide3)
    requires
        a.within(LIMIT as int),
        b.within(LIMIT as int),
    ensures
        r.parts() == plus(a.parts(), b.parts()),
{
    Wide3 { x: a.x + b.x, y: a.y + b.y, z: a.z + b.z }
}

/// Two evaluations that agree average to themselves.
pub proof fn steady_loads_average_to_themselves(load: Triple)
    ensures
        share(plus(load, load), 500_000_000) == load,
{
}

}
