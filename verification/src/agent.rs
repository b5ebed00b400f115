//! Per-agent state: the components of one simulated boid, the static
//! obstacles, and the force events exchanged between the rule evaluators and
//! the force accumulator.

use vstd::prelude::*;
use crate::vec3::V3;
use crate::{COORD_LIM, ACCEL_LIM, FORCE_LIM};

verus! {

/// Group membership of a boid: selects which group target attracts it.
#[derive(Clone, Copy, PartialEq, Eq, Structural, Debug)]
pub struct Boid {
    pub group: u8,
}

/// Velocity component of a boid.
#[derive(Clone, Copy, PartialEq, Eq, Structural, Debug)]
pub struct Velocity {
    pub velocity: V3,
}

/// Pending acceleration of a boid, accumulated within one tick and zeroed by
/// the integrator.
#[derive(Clone, Copy, PartialEq, Eq, Structural, Debug)]
pub struct Acceleration {
    pub acceleration: V3,
}

/// A static spherical obstacle.
#[derive(Clone, Copy, PartialEq, Eq, Structural, Debug)]
pub struct Obstacle {
    pub position: V3,
    pub radius: i64,
}

impl Obstacle {
    pub open spec fn wf(self) -> bool {
        &&& self.position@.bounded(COORD_LIM as int)
        &&& 0 <= self.radius <= COORD_LIM
    }
}

/// One simulated agent: position, velocity, pending acceleration, facing
/// direction and group membership.
#[derive(Clone, Copy, PartialEq, Eq, Structural, Debug)]
pub struct Agent {
    pub position: V3,
    pub velocity: Velocity,
    pub acceleration: Acceleration,
    /// Unit facing direction in fixed point (length `SCALE`), derived from
    /// the velocity by the integrator.
    pub heading: V3,
    pub boid: Boid,
}

impl Agent {
    /// Well-formedness of an agent's committed (between-tick) state.
    pub open spec fn wf(self) -> bool {
        &&& self.position@.bounded(COORD_LIM as int)
        &&& self.velocity.velocity@.bounded(COORD_LIM as int)
        &&& self.acceleration.acceleration@.bounded(ACCEL_LIM as int)
        &&& self.heading@.bounded(COORD_LIM as int)
    }
}

/// An ephemeral message from a rule evaluator to the force accumulator:
/// add `force` to the pending acceleration of agent `agent`.
#[derive(Clone, Copy, PartialEq, Eq, Structural, Debug)]
pub struct ApplyForceEvent {
    pub agent: usize,
    pub force: V3,
}

impl ApplyForceEvent {
    pub open spec fn wf(self) -> bool {
        self.force@.bounded(FORCE_LIM as int)
    }
}

} // verus!
