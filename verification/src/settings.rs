//! Tunable simulation parameters and the fixed simulation volume.
//!
//! The parameters are a configuration snapshot: an external collaborator (a
//! GUI) may replace values between ticks, and the engine reads them only
//! through an immutable borrow for the whole of a tick.

use vstd::prelude::*;
use crate::vec3::V3;
use crate::{SCALE, COORD_LIM, COEFF_LIM, SPEED_LIM};

verus! {

/// Width of the simulation volume (x axis), in fixed point: 150 units.
pub const WIDTH: i64 = 150_000;

/// Height of the simulation volume (y axis): 100 units.
pub const HEIGHT: i64 = 100_000;

/// Depth of the simulation volume (z axis): 150 units.
pub const DEPTH: i64 = 150_000;

/// Floor of the simulation volume on the y axis.
pub const MIN_HEIGHT: i64 = 0;

/// Tunable parameters of the flocking rules.
///
/// Angles are carried as the cosine of the half field-of-view cone, in fixed
/// point (`SCALE` stands for a cosine of one), so that the visibility test is
/// exact integer arithmetic.
#[derive(Clone, Copy, PartialEq, Eq, Structural, Debug)]
pub struct BoidSettings {
    pub count: usize,
    pub previous_count: usize,
    /// Visual scale of one boid; read only by the rendering collaborator.
    pub size: i64,
    pub cohesion_range: i64,
    pub alignment_range: i64,
    pub separation_range: i64,
    pub min_distance_between_boids: i64,
    pub cohesion_coeff: i64,
    pub alignment_coeff: i64,
    pub separation_coeff: i64,
    pub collision_coeff: i64,
    pub min_speed: i64,
    pub max_speed: i64,
    pub bounce_against_walls: bool,
    pub attraction_coeff: i64,
    /// Cosine of half the field-of-view angle, times `SCALE`.
    pub field_of_view_cos: i64,
    /// Distance from a wall at which confinement starts to turn an agent.
    pub margin: i64,
    /// Velocity nudge applied per tick by the confinement stage.
    pub turn_factor: i64,
}

impl BoidSettings {
    /// The bounds under which every arithmetic step of the engine is exact.
    pub open spec fn valid(self) -> bool {
        &&& 0 <= self.cohesion_range <= COORD_LIM
        &&& 0 <= self.alignment_range <= COORD_LIM
        &&& 0 <= self.separation_range <= COORD_LIM
        &&& 0 <= self.cohesion_coeff <= COEFF_LIM
        &&& 0 <= self.alignment_coeff <= COEFF_LIM
        &&& 0 <= self.separation_coeff <= COEFF_LIM
        &&& 0 <= self.collision_coeff <= COEFF_LIM
        &&& 0 <= self.attraction_coeff <= COEFF_LIM
        &&& 0 <= self.min_speed <= SPEED_LIM
        &&& 0 <= self.max_speed <= SPEED_LIM
        &&& -SCALE <= self.field_of_view_cos <= SCALE
        &&& 0 <= self.margin <= COORD_LIM
        &&& 0 <= self.turn_factor <= SPEED_LIM
    }
}

/// A raw tunable clamped into its accepted range.
pub open spec fn clamped(v: int, lo: int, hi: int) -> int
    recommends
        lo <= hi,
{
    if v < lo {
        lo
    } else if v > hi {
        hi
    } else {
        v
    }
}

/// Clamp one raw tunable into `[lo, hi]`.
fn clamp_i64(v: i64, lo: i64, hi: i64) -> (r: i64)
    requires
        lo <= hi,
    ensures
        r as int == clamped(v as int, lo as int, hi as int),
        lo <= r <= hi,
{
    if v < lo {
        lo
    } else if v > hi {
        hi
    } else {
        v
    }
}

impl BoidSettings {
    /// A configuration collaborator (a slider being dragged) may transiently
    /// present values outside the engine's bounds — negative ranges,
    /// oversized coefficients. Clamp every tunable into its accepted range;
    /// a snapshot that is already valid passes through unchanged.
    pub fn sanitized(&self) -> (r: BoidSettings)
        ensures
            r.valid(),
            r.cohesion_range as int == clamped(self.cohesion_range as int, 0, COORD_LIM as int),
            r.alignment_range as int == clamped(self.alignment_range as int, 0, COORD_LIM as int),
            r.separation_range as int == clamped(self.separation_range as int, 0, COORD_LIM as int),
            r.cohesion_coeff as int == clamped(self.cohesion_coeff as int, 0, COEFF_LIM as int),
            r.alignment_coeff as int == clamped(self.alignment_coeff as int, 0, COEFF_LIM as int),
            r.separation_coeff as int == clamped(self.separation_coeff as int, 0, COEFF_LIM as int),
            r.collision_coeff as int == clamped(self.collision_coeff as int, 0, COEFF_LIM as int),
            r.attraction_coeff as int == clamped(self.attraction_coeff as int, 0, COEFF_LIM as int),
            r.min_speed as int == clamped(self.min_speed as int, 0, SPEED_LIM as int),
            r.max_speed as int == clamped(self.max_speed as int, 0, SPEED_LIM as int),
            r.field_of_view_cos as int == clamped(
                self.field_of_view_cos as int,
                -SCALE as int,
                SCALE as int,
            ),
            r.margin as int == clamped(self.margin as int, 0, COORD_LIM as int),
            r.turn_factor as int == clamped(self.turn_factor as int, 0, SPEED_LIM as int),
            r.count == self.count,
            r.previous_count == self.previous_count,
            r.size == self.size,
            r.min_distance_between_boids == self.min_distance_between_boids,
            r.bounce_against_walls == self.bounce_against_walls,
            self.valid() ==> r == *self,
    {
        BoidSettings {
            count: self.count,
            previous_count: self.previous_count,
            size: self.size,
            cohesion_range: clamp_i64(self.cohesion_range, 0, COORD_LIM),
            alignment_range: clamp_i64(self.alignment_range, 0, COORD_LIM),
            separation_range: clamp_i64(self.separation_range, 0, COORD_LIM),
            min_distance_between_boids: self.min_distance_between_boids,
            cohesion_coeff: clamp_i64(self.cohesion_coeff, 0, COEFF_LIM),
            alignment_coeff: clamp_i64(self.alignment_coeff, 0, COEFF_LIM),
            separation_coeff: clamp_i64(self.separation_coeff, 0, COEFF_LIM),
            collision_coeff: clamp_i64(self.collision_coeff, 0, COEFF_LIM),
            min_speed: clamp_i64(self.min_speed, 0, SPEED_LIM),
            max_speed: clamp_i64(self.max_speed, 0, SPEED_LIM),
            bounce_against_walls: self.bounce_against_walls,
            attraction_coeff: clamp_i64(self.attraction_coeff, 0, COEFF_LIM),
            field_of_view_cos: clamp_i64(self.field_of_view_cos, -SCALE, SCALE),
            margin: clamp_i64(self.margin, 0, COORD_LIM),
            turn_factor: clamp_i64(self.turn_factor, 0, SPEED_LIM),
        }
    }
}

impl Default for BoidSettings {
    /// The stock parameter set the simulation starts from.
    fn default() -> (r: BoidSettings)
        ensures
            r.valid(),
            r.count == 1000,
            r.previous_count == 200,
            r.size == 80,
            r.cohesion_range == 50_000,
            r.alignment_range == 30_000,
            r.separation_range == 20_000,
            r.min_distance_between_boids == 20_000,
            r.cohesion_coeff == 20_000,
            r.alignment_coeff == 5_000,
            r.separation_coeff == 20_000,
            r.collision_coeff == 24_000,
            r.min_speed == 20_000,
            r.max_speed == 80_000,
            r.attraction_coeff == 1_000,
            r.field_of_view_cos == 707,
            r.margin == 10_000,
            r.turn_factor == 10_000,
            r.separation_range < r.alignment_range < r.cohesion_range,
            r.min_speed <= r.max_speed,
            r.bounce_against_walls,
    {
        BoidSettings {
            count: 1000,
            previous_count: 200,
            size: 80,
            cohesion_range: 50_000,
            alignment_range: 30_000,
            separation_range: 20_000,
            min_distance_between_boids: 20_000,
            cohesion_coeff: 20_000,
            alignment_coeff: 5_000,
            separation_coeff: 20_000,
            collision_coeff: 24_000,
            min_speed: 20_000,
            max_speed: 80_000,
            bounce_against_walls: true,
            attraction_coeff: 1_000,
            // A 90 degree field of view: cos(45°) in fixed point.
            field_of_view_cos: 707,
            margin: 10_000,
            turn_factor: 10_000,
        }
    }
}

/// Attraction points, one per group id; read-only during simulation.
#[derive(Debug)]
pub struct GroupsTargets {
    pub targets: Vec<V3>,
}

impl GroupsTargets {
    /// Every target lies inside the coordinate bound.
    pub open spec fn valid(self) -> bool {
        forall|k: int|
            0 <= k < self.targets@.len() ==> (#[trigger] self.targets@[k])@.bounded(
                COORD_LIM as int,
            )
    }
}

impl Default for GroupsTargets {
    /// Two targets, one per group, mirrored in x and placed inside the
    /// volume at 30% of the width and half the height.
    fn default() -> (r: GroupsTargets)
        ensures
            r.valid(),
            r.targets@.len() == 2,
            r.targets@[0]@ == (crate::vec3::Vm { x: -45_000, y: 50_000, z: 0 }),
            r.targets@[1]@ == (crate::vec3::Vm { x: 45_000, y: 50_000, z: 0 }),
    {
        let a = V3::new(-45_000, 50_000, 0);
        let b = V3::new(45_000, 50_000, 0);
        let targets: Vec<V3> = vec![a, b];
        GroupsTargets { targets }
    }
}

} // verus!
