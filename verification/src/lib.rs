//! Core engine of a 3D flocking ("boids") simulation.
//!
//! All geometry is carried in fixed-point integers: one world unit is
//! `SCALE` ticks, so a coordinate of `1500` stands for `1.5` units. Every
//! operation of the per-tick pipeline (neighbor search, steering rules,
//! force accumulation, integration, confinement) is specified exactly over
//! that representation.

use vstd::prelude::*;

pub mod accumulate;
pub mod agent;
pub mod flocking;
pub mod integrate;
pub mod spatial;
pub mod spawn;
pub mod math;
pub mod settings;
pub mod sim;
pub mod vec3;

verus! {

/// Fixed-point scale: number of integer ticks per world unit.
pub const SCALE: i64 = 1000;

/// Bound on every coordinate of a position, velocity, target or range the
/// engine accepts: ten thousand world units. Keeping inputs inside it is what
/// lets every intermediate product of the pipeline be proved free of overflow.
pub const COORD_LIM: i64 = 10_000_000;

/// Bound on a rule coefficient (one thousand, in fixed point).
pub const COEFF_LIM: i64 = 1_000_000;

/// Bound on the timestep (ten seconds, in fixed point).
pub const DT_LIM: i64 = 10_000;

/// Bound on one component of a single emitted force event.
pub const FORCE_LIM: i64 = 1_000_000_000_000;

/// Bound on one component of an agent's accumulated acceleration.
pub const ACCEL_LIM: i64 = 400_000_000_000_000_000;

/// Bound on the configured speeds and on the confinement nudge: half the
/// coordinate bound, so a clamped velocity plus one nudge stays bounded.
pub const SPEED_LIM: i64 = 5_000_000;

/// Largest population (of agents, of obstacles, of pending force events) the
/// engine's overflow-freedom proofs cover.
pub const AGENT_LIM: usize = 100_000;

/// Truncating division (rounds toward zero), for a positive divisor.
/// This is the rounding every fixed-point operation in the engine uses.
pub open spec fn div_tz(a: int, b: int) -> int
    recommends
        b > 0,
{
    if a >= 0 {
        a / b
    } else {
        -((-a) / b)
    }
}

} // verus!
