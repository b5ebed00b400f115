//! Integrator and confinement stage: advance velocity and position from the
//! accumulated acceleration under the speed clamp, derive the facing
//! direction, reset the acceleration, and nudge agents back toward the
//! simulation volume.

use vstd::prelude::*;
use crate::vec3::{V3, Vm, lemma_comp_le_norm, lemma_vscale_bound, lemma_nsq_nonneg, lemma_nsq_bound};
use crate::math::{lemma_mul_bound, lemma_isqrt_pos, lemma_isqrt_square, lemma_isqrt_ordered};
use crate::agent::Agent;
use crate::settings::{BoidSettings, WIDTH, HEIGHT, DEPTH, MIN_HEIGHT};
use crate::{SCALE, COORD_LIM, ACCEL_LIM, SPEED_LIM, DT_LIM, AGENT_LIM};

verus! {

/// Rescale `v` to length `m`: multiply each component by `m` and divide by
/// the fixed-point norm.
pub open spec fn rescaled(v: Vm, m: int) -> Vm
    recommends
        v.nsq() > 0,
{
    v.vscale(m, v.norm())
}

/// The speed clamp: a zero velocity is kept; one slower than `min_speed` is
/// rescaled up to it; one faster than `max_speed` is rescaled down to it.
/// The comparisons against the real speed are exact, by comparing squares.
pub open spec fn clamp_velocity(v: Vm, min_speed: int, max_speed: int) -> Vm {
    let n2 = v.nsq();
    if n2 == 0 {
        v
    } else if n2 < min_speed * min_speed {
        rescaled(v, min_speed)
    } else if n2 > max_speed * max_speed {
        rescaled(v, max_speed)
    } else {
        v
    }
}

/// What the clamp guarantees of its result `w` against its input `u`:
/// a zero `u` stays zero; inside the band, `u` is kept untouched; on a
/// violated bound `m`, no component of `w` exceeds `m`, the squared speed
/// is at least `m^2 - 6m`, and `|w|^2 * |u|_fix^2 <= m^2 * |u|^2` (the
/// speed lands on `m` within the rounding of one fixed-point rescale).
pub open spec fn speed_within_clamp(w: Vm, u: Vm, min_speed: int, max_speed: int) -> bool {
    let d = u.norm();
    &&& (u.is_zero() ==> w.is_zero())
    &&& (min_speed * min_speed <= u.nsq() <= max_speed * max_speed ==> w == u)
    &&& (u.nsq() > max_speed * max_speed ==> w.bounded(max_speed) && w.nsq() * (d * d) <= (
    max_speed * max_speed) * u.nsq() && w.nsq() >= max_speed * max_speed - 6 * max_speed)
    &&& (0 < u.nsq() < min_speed * min_speed ==> w.bounded(min_speed) && w.nsq() * (d * d) <= (
    min_speed * min_speed) * u.nsq() && w.nsq() >= min_speed * min_speed - 6 * min_speed)
}

/// Velocity after one integration step, before clamping.
pub open spec fn stepped_velocity(vel: Vm, acc: Vm, dt: int) -> Vm {
    vel.vadd(acc.vscale(dt, SCALE as int))
}

/// Velocity after one integration step, clamped.
pub open spec fn integrated_velocity(vel: Vm, acc: Vm, s: BoidSettings, dt: int) -> Vm {
    clamp_velocity(stepped_velocity(vel, acc, dt), s.min_speed as int, s.max_speed as int)
}

/// Position after one integration step.
pub open spec fn integrated_position(pos: Vm, vel: Vm, acc: Vm, s: BoidSettings, dt: int) -> Vm {
    pos.vadd(integrated_velocity(vel, acc, s, dt).vscale(dt, SCALE as int))
}

/// Facing after one integration step: the unit direction of the new
/// velocity (at fixed-point length `SCALE`), kept unchanged when the new
/// velocity is zero.
pub open spec fn integrated_heading(heading: Vm, vel: Vm, acc: Vm, s: BoidSettings, dt: int) -> Vm {
    let v = integrated_velocity(vel, acc, s, dt);
    if v.nsq() > 0 {
        rescaled(v, SCALE as int)
    } else {
        heading
    }
}

/// Rescaling changes the speed to the target within a tight tolerance: no
/// component exceeds the target `m`; the rescaled squared norm obeys
/// `|w|^2 * |v|_fix^2 <= m^2 * |v|^2` (so the real speed of `w` is at most
/// `m * |v| / |v|_fix < m * (1 + 1 / |v|_fix)`); and truncation, losing less
/// than one unit per component, keeps `|w|^2 >= m^2 - 6m`.
pub proof fn lemma_rescaled_bounds(v: Vm, m: int)
    requires
        v.nsq() > 0,
        m >= 0,
    ensures
        rescaled(v, m).bounded(m),
        rescaled(v, m).nsq() * (v.norm() * v.norm()) <= (m * m) * v.nsq(),
        rescaled(v, m).nsq() >= m * m - 6 * m,
{
    let d = v.norm();
    let w = rescaled(v, m);
    lemma_nsq_nonneg(v);
    lemma_isqrt_pos(v.nsq() as nat);
    lemma_comp_le_norm(v);
    lemma_vscale_bound(v, m, d, 1);
    crate::math::lemma_div_tz_fundamental(v.x * m, d);
    crate::math::lemma_div_tz_fundamental(v.y * m, d);
    crate::math::lemma_div_tz_fundamental(v.z * m, d);
    assert((w.x * d) * (w.x * d) <= (v.x * m) * (v.x * m)) by (nonlinear_arith)
        requires
            d > 0,
            v.x * m >= 0 ==> w.x * d <= v.x * m && w.x >= 0,
            v.x * m <= 0 ==> w.x * d >= v.x * m && w.x <= 0,
    ;
    assert((w.y * d) * (w.y * d) <= (v.y * m) * (v.y * m)) by (nonlinear_arith)
        requires
            d > 0,
            v.y * m >= 0 ==> w.y * d <= v.y * m && w.y >= 0,
            v.y * m <= 0 ==> w.y * d >= v.y * m && w.y <= 0,
    ;
    assert((w.z * d) * (w.z * d) <= (v.z * m) * (v.z * m)) by (nonlinear_arith)
        requires
            d > 0,
            v.z * m >= 0 ==> w.z * d <= v.z * m && w.z >= 0,
            v.z * m <= 0 ==> w.z * d >= v.z * m && w.z <= 0,
    ;
    assert((w.x * d) * (w.x * d) == (w.x * w.x) * (d * d)) by (nonlinear_arith);
    assert((w.y * d) * (w.y * d) == (w.y * w.y) * (d * d)) by (nonlinear_arith);
    assert((w.z * d) * (w.z * d) == (w.z * w.z) * (d * d)) by (nonlinear_arith);
    assert((v.x * m) * (v.x * m) == (v.x * v.x) * (m * m)) by (nonlinear_arith);
    assert((v.y * m) * (v.y * m) == (v.y * v.y) * (m * m)) by (nonlinear_arith);
    assert((v.z * m) * (v.z * m) == (v.z * v.z) * (m * m)) by (nonlinear_arith);
    assert(w.nsq() * (d * d) == (w.x * w.x) * (d * d) + (w.y * w.y) * (d * d) + (w.z * w.z) * (d
        * d)) by (nonlinear_arith)
        requires
            w.nsq() == w.x * w.x + w.y * w.y + w.z * w.z,
    ;
    assert((m * m) * v.nsq() == (v.x * v.x) * (m * m) + (v.y * v.y) * (m * m) + (v.z * v.z) * (m
        * m)) by (nonlinear_arith)
        requires
            v.nsq() == v.x * v.x + v.y * v.y + v.z * v.z,
    ;
    // The lower tolerance: each truncation loses less than one unit of the
    // quotient, that is, less than `d` of `v_i * m`.
    lemma_mul_bound(v.x, m, d, m);
    lemma_mul_bound(v.y, m, d, m);
    lemma_mul_bound(v.z, m, d, m);
    assert((w.x * d) * (w.x * d) >= (v.x * m) * (v.x * m) - 2 * ((d * m) * d)) by (nonlinear_arith)
        requires
            d > 0,
            -(d * m) <= v.x * m <= d * m,
            v.x * m >= 0 ==> v.x * m - d < d * w.x <= v.x * m,
            v.x * m <= 0 ==> v.x * m <= d * w.x < v.x * m + d,
            d * w.x == w.x * d,
    ;
    assert((w.y * d) * (w.y * d) >= (v.y * m) * (v.y * m) - 2 * ((d * m) * d)) by (nonlinear_arith)
        requires
            d > 0,
            -(d * m) <= v.y * m <= d * m,
            v.y * m >= 0 ==> v.y * m - d < d * w.y <= v.y * m,
            v.y * m <= 0 ==> v.y * m <= d * w.y < v.y * m + d,
            d * w.y == w.y * d,
    ;
    assert((w.z * d) * (w.z * d) >= (v.z * m) * (v.z * m) - 2 * ((d * m) * d)) by (nonlinear_arith)
        requires
            d > 0,
            -(d * m) <= v.z * m <= d * m,
            v.z * m >= 0 ==> v.z * m - d < d * w.z <= v.z * m,
            v.z * m <= 0 ==> v.z * m <= d * w.z < v.z * m + d,
            d * w.z == w.z * d,
    ;
    assert(w.nsq() * (d * d) >= (m * m) * v.nsq() - 6 * ((d * m) * d));
    crate::math::lemma_isqrt_bounds(v.nsq() as nat);
    assert(v.nsq() >= d * d);
    assert((m * m) * v.nsq() >= (m * m) * (d * d)) by (nonlinear_arith)
        requires
            v.nsq() >= d * d,
            m * m >= 0,
    ;
    assert(w.nsq() >= m * m - 6 * m) by (nonlinear_arith)
        requires
            d > 0,
            w.nsq() * (d * d) >= (m * m) * (d * d) - 6 * ((d * m) * d),
    ;
}

/// The speed bound the integrator enforces: after the clamp, a velocity is
/// either zero, or kept unchanged with its squared speed inside
/// `[min_speed^2, max_speed^2]` exactly, or rescaled onto the violated
/// bound: no component then exceeds the bound `m`, the squared speed is at
/// least `m^2 - 6m` (rounding down loses less than one unit per component),
/// and it obeys `|w|^2 * |v|_fix^2 <= m^2 * |v|^2`, so the speed overshoots
/// `m` by less than one part in the fixed-point norm of `v`.
pub proof fn lemma_speed_bound(v: Vm, min_speed: int, max_speed: int)
    requires
        0 <= min_speed <= max_speed,
    ensures
        speed_within_clamp(clamp_velocity(v, min_speed, max_speed), v, min_speed, max_speed),
{
    lemma_nsq_nonneg(v);
    if v.nsq() > max_speed * max_speed {
        lemma_rescaled_bounds(v, max_speed);
        assert(min_speed * min_speed <= max_speed * max_speed) by (nonlinear_arith)
            requires
                0 <= min_speed <= max_speed,
        ;
    } else if 0 < v.nsq() < min_speed * min_speed {
        lemma_rescaled_bounds(v, min_speed);
    }
}

/// The speed bound, read at the integrator's contract: for every agent,
/// after integration, the velocity is zero; or it was left in the band with
/// its squared speed inside `[min_speed^2, max_speed^2]` exactly; or it was
/// rescaled onto the violated bound `m`, where its squared speed is at
/// least `m^2 - 6m` and no component exceeds `m` (so the speed stays below
/// `sqrt(3) * m`; for a pre-clamp velocity of fixed-point norm `d` the
/// overshoot is in fact below `m / d`, by `lemma_speed_bound`).
pub proof fn lemma_integrated_speed_bound(vel: Vm, acc: Vm, s: BoidSettings, dt: int)
    requires
        0 <= s.min_speed <= s.max_speed,
    ensures
        ({
            let w = integrated_velocity(vel, acc, s, dt);
            ||| w.is_zero()
            ||| (s.min_speed * s.min_speed <= w.nsq() <= s.max_speed * s.max_speed)
            ||| (w.bounded(s.max_speed as int) && w.nsq() >= s.max_speed * s.max_speed - 6
                * s.max_speed)
            ||| (w.bounded(s.min_speed as int) && w.nsq() >= s.min_speed * s.min_speed - 6
                * s.min_speed)
        }),
{
    let u = stepped_velocity(vel, acc, dt);
    lemma_speed_bound(u, s.min_speed as int, s.max_speed as int);
    lemma_nsq_nonneg(u);
}

/// Advance every agent by one timestep `dt` (in fixed point): apply the
/// accumulated acceleration to the velocity, clamp the speed, move, face
/// along the motion, and zero the acceleration for the next tick.
pub fn update_boids(agents: &mut Vec<Agent>, boid_settings: &BoidSettings, dt: i64)
    requires
        old(agents)@.len() <= AGENT_LIM,
        forall|t: int| 0 <= t < old(agents)@.len() ==> (#[trigger] old(agents)@[t]).wf(),
        boid_settings.valid(),
        0 <= dt <= DT_LIM,
    ensures
        final(agents)@.len() == old(agents)@.len(),
        forall|t: int|
            0 <= t < old(agents)@.len() ==> {
                let a = old(agents)@[t];
                let b = #[trigger] final(agents)@[t];
                &&& b.velocity.velocity@ == integrated_velocity(
                    a.velocity.velocity@,
                    a.acceleration.acceleration@,
                    *boid_settings,
                    dt as int,
                )
                &&& b.position@ == integrated_position(
                    a.position@,
                    a.velocity.velocity@,
                    a.acceleration.acceleration@,
                    *boid_settings,
                    dt as int,
                )
                &&& b.heading@ == integrated_heading(
                    a.heading@,
                    a.velocity.velocity@,
                    a.acceleration.acceleration@,
                    *boid_settings,
                    dt as int,
                )
                &&& boid_settings.min_speed <= boid_settings.max_speed ==> speed_within_clamp(
                    b.velocity.velocity@,
                    stepped_velocity(
                        a.velocity.velocity@,
                        a.acceleration.acceleration@,
                        dt as int,
                    ),
                    boid_settings.min_speed as int,
                    boid_settings.max_speed as int,
                )
                &&& b.acceleration.acceleration@.is_zero()
                &&& b.boid == a.boid
                &&& b.velocity.velocity@.bounded(SPEED_LIM as int)
                &&& b.position@.bounded(COORD_LIM as int + 50_000_000)
                &&& b.heading@.bounded(COORD_LIM as int)
            },
{
    let ghost s = *boid_settings;
    let n = agents.len();
    let mut t: usize = 0;
    while t < n
        invariant
            n == agents@.len() == old(agents)@.len() <= AGENT_LIM,
            forall|u: int| t <= u < n ==> agents@[u] == old(agents)@[u],
            forall|u: int| 0 <= u < n ==> (#[trigger] old(agents)@[u]).wf(),
            s == *boid_settings,
            s.valid(),
            0 <= dt <= DT_LIM,
            t <= n,
            forall|u: int|
                0 <= u < t ==> {
                    let a = old(agents)@[u];
                    let b = #[trigger] agents@[u];
                    &&& b.velocity.velocity@ == integrated_velocity(
                        a.velocity.velocity@,
                        a.acceleration.acceleration@,
                        s,
                        dt as int,
                    )
                    &&& b.position@ == integrated_position(
                        a.position@,
                        a.velocity.velocity@,
                        a.acceleration.acceleration@,
                        s,
                        dt as int,
                    )
                    &&& b.heading@ == integrated_heading(
                        a.heading@,
                        a.velocity.velocity@,
                        a.acceleration.acceleration@,
                        s,
                        dt as int,
                    )
                    &&& s.min_speed <= s.max_speed ==> speed_within_clamp(
                        b.velocity.velocity@,
                        stepped_velocity(
                            a.velocity.velocity@,
                            a.acceleration.acceleration@,
                            dt as int,
                        ),
                        s.min_speed as int,
                        s.max_speed as int,
                    )
                    &&& b.acceleration.acceleration@.is_zero()
                    &&& b.boid == a.boid
                    &&& b.velocity.velocity@.bounded(SPEED_LIM as int)
                    &&& b.position@.bounded(COORD_LIM as int + 50_000_000)
                    &&& b.heading@.bounded(COORD_LIM as int)
                },
        decreases n - t,
    {
        let a = agents[t];
        assert(a == old(agents)@[t as int]);
        // Apply the acceleration to the velocity.
        proof {
            lemma_vscale_bound(
                a.acceleration.acceleration@,
                dt as int,
                SCALE as int,
                400_000_000_000_000,
            );
            assert(400_000_000_000_000 * dt <= 4_000_000_000_000_000_000) by (nonlinear_arith)
                requires
                    0 <= dt <= 10_000,
            ;
        }
        let dv = a.acceleration.acceleration.scale(dt, SCALE);
        let v1 = a.velocity.velocity.add(dv);
        assert(v1@ == stepped_velocity(a.velocity.velocity@, a.acceleration.acceleration@, dt as int));
        assert(v1@.bounded(4_100_000_000_000_000_000));
        // Clamp the speed, comparing squared magnitudes exactly.
        let n2 = v1.nsq_wide();
        proof {
            lemma_nsq_nonneg(v1@);
            lemma_mul_bound(s.min_speed as int, s.min_speed as int, SPEED_LIM as int, SPEED_LIM as int);
            lemma_mul_bound(s.max_speed as int, s.max_speed as int, SPEED_LIM as int, SPEED_LIM as int);
        }
        let min2: i128 = (boid_settings.min_speed as i128) * (boid_settings.min_speed as i128);
        let max2: i128 = (boid_settings.max_speed as i128) * (boid_settings.max_speed as i128);
        let v2: V3;
        if n2 == 0 {
            v2 = v1;
            assert(v2@ == clamp_velocity(v1@, s.min_speed as int, s.max_speed as int));
            assert(v2@.is_zero());
        } else if n2 < min2 {
            let d = v1.norm();
            proof {
                lemma_isqrt_pos(v1@.nsq() as nat);
                lemma_comp_le_norm(v1@);
                lemma_vscale_bound(v1@, s.min_speed as int, d as int, 1);
            }
            v2 = v1.scale(boid_settings.min_speed, d);
            assert(v2@ == rescaled(v1@, s.min_speed as int));
            assert(v2@.bounded(SPEED_LIM as int));
        } else if n2 > max2 {
            let d = v1.norm();
            proof {
                lemma_isqrt_pos(v1@.nsq() as nat);
                lemma_comp_le_norm(v1@);
                lemma_vscale_bound(v1@, s.max_speed as int, d as int, 1);
            }
            v2 = v1.scale(boid_settings.max_speed, d);
            assert(v2@ == rescaled(v1@, s.max_speed as int));
            assert(v2@.bounded(SPEED_LIM as int));
        } else {
            v2 = v1;
            proof {
                // Inside the band the velocity is kept, and its components
                // are bounded by the norm, itself at most max_speed.
                lemma_comp_le_norm(v1@);
                lemma_isqrt_ordered(
                    v1@.nsq() as nat,
                    (s.max_speed * s.max_speed) as nat,
                );
                lemma_isqrt_square(s.max_speed as nat);
            }
            assert(v2@.bounded(SPEED_LIM as int));
        }
        assert(v2@ == integrated_velocity(a.velocity.velocity@, a.acceleration.acceleration@, s, dt as int));
        proof {
            if s.min_speed <= s.max_speed {
                lemma_speed_bound(v1@, s.min_speed as int, s.max_speed as int);
            }
        }
        // Move.
        proof {
            lemma_vscale_bound(v2@, dt as int, SCALE as int, 5_000);
            assert(5_000 * dt <= 50_000_000) by (nonlinear_arith)
                requires
                    0 <= dt <= 10_000,
            ;
        }
        let dp = v2.scale(dt, SCALE);
        let p2 = a.position.add(dp);
        assert(p2@ == integrated_position(a.position@, a.velocity.velocity@, a.acceleration.acceleration@, s, dt as int));
        // Face along the motion, if any.
        let h2: V3;
        let n2b = v2.nsq_wide();
        proof {
            lemma_nsq_nonneg(v2@);
        }
        if n2b > 0 {
            let d = v2.norm();
            proof {
                lemma_isqrt_pos(v2@.nsq() as nat);
                lemma_comp_le_norm(v2@);
                lemma_vscale_bound(v2@, SCALE as int, d as int, 1);
            }
            h2 = v2.scale(SCALE, d);
        } else {
            h2 = a.heading;
        }
        assert(h2@ == integrated_heading(a.heading@, a.velocity.velocity@, a.acceleration.acceleration@, s, dt as int));
        agents[t] = Agent {
            position: p2,
            velocity: crate::agent::Velocity { velocity: v2 },
            acceleration: crate::agent::Acceleration { acceleration: V3::zero() },
            heading: h2,
            boid: a.boid,
        };
        t += 1;
    }
}

/// Velocity after the confinement nudge: within `margin` of a wall of the
/// simulation volume, the wall pushes the matching velocity component back
/// inward by `turn_factor`; it is a nudge, not a clamp. Nothing happens
/// when `bounce_against_walls` is off.
pub open spec fn confined_velocity(pos: Vm, vel: Vm, s: BoidSettings) -> Vm {
    if !s.bounce_against_walls {
        vel
    } else {
        let x = if pos.x < -(WIDTH as int) / 2 + s.margin {
            vel.x + s.turn_factor
        } else if pos.x > (WIDTH as int) / 2 - s.margin {
            vel.x - s.turn_factor
        } else {
            vel.x
        };
        let y = if pos.y < MIN_HEIGHT + s.margin {
            vel.y + s.turn_factor
        } else if pos.y > HEIGHT - s.margin {
            vel.y - s.turn_factor
        } else {
            vel.y
        };
        let z = if pos.z < -(DEPTH as int) / 2 + s.margin {
            vel.z + s.turn_factor
        } else if pos.z > (DEPTH as int) / 2 - s.margin {
            vel.z - s.turn_factor
        } else {
            vel.z
        };
        Vm { x, y, z }
    }
}

/// Confinement stage: nudge the velocity of every agent near or beyond a
/// wall back toward the volume. Runs only when `bounce_against_walls` is on.
pub fn confine_boids(agents: &mut Vec<Agent>, boid_settings: &BoidSettings)
    requires
        old(agents)@.len() <= AGENT_LIM,
        boid_settings.valid(),
        forall|t: int|
            0 <= t < old(agents)@.len() ==> (#[trigger] old(agents)@[t]).velocity.velocity@.bounded(
                SPEED_LIM as int,
            ),
        forall|t: int|
            0 <= t < old(agents)@.len() ==> (#[trigger] old(agents)@[t]).position@.bounded(
                COORD_LIM as int + 50_000_000,
            ),
    ensures
        final(agents)@.len() == old(agents)@.len(),
        forall|t: int|
            0 <= t < old(agents)@.len() ==> {
                let a = old(agents)@[t];
                let b = #[trigger] final(agents)@[t];
                &&& b.velocity.velocity@ == confined_velocity(
                    a.position@,
                    a.velocity.velocity@,
                    *boid_settings,
                )
                &&& b.velocity.velocity@.bounded(COORD_LIM as int)
                &&& b.position == a.position
                &&& b.acceleration == a.acceleration
                &&& b.heading == a.heading
                &&& b.boid == a.boid
            },
{
    let ghost s = *boid_settings;
    let n = agents.len();
    let mut t: usize = 0;
    while t < n
        invariant
            n == agents@.len() == old(agents)@.len() <= AGENT_LIM,
            forall|u: int| t <= u < n ==> agents@[u] == old(agents)@[u],
            s == *boid_settings,
            s.valid(),
            forall|u: int|
                0 <= u < n ==> (#[trigger] old(agents)@[u]).velocity.velocity@.bounded(
                    SPEED_LIM as int,
                ),
            forall|u: int|
                0 <= u < n ==> (#[trigger] old(agents)@[u]).position@.bounded(
                    COORD_LIM as int + 50_000_000,
                ),
            t <= n,
            forall|u: int|
                0 <= u < t ==> {
                    let a = old(agents)@[u];
                    let b = #[trigger] agents@[u];
                    &&& b.velocity.velocity@ == confined_velocity(
                        a.position@,
                        a.velocity.velocity@,
                        s,
                    )
                    &&& b.velocity.velocity@.bounded(COORD_LIM as int)
                    &&& b.position == a.position
                    &&& b.acceleration == a.acceleration
                    &&& b.heading == a.heading
                    &&& b.boid == a.boid
                },
        decreases n - t,
    {
        let a = agents[t];
        assert(a == old(agents)@[t as int]);
        if boid_settings.bounce_against_walls {
            let pos = a.position;
            let mut vel = a.velocity.velocity;
            if pos.x < -WIDTH / 2 + boid_settings.margin {
                vel.x = vel.x + boid_settings.turn_factor;
            } else if pos.x > WIDTH / 2 - boid_settings.margin {
                vel.x = vel.x - boid_settings.turn_factor;
            }
            if pos.y < MIN_HEIGHT + boid_settings.margin {
                vel.y = vel.y + boid_settings.turn_factor;
            } else if pos.y > HEIGHT - boid_settings.margin {
                vel.y = vel.y - boid_settings.turn_factor;
            }
            if pos.z < -DEPTH / 2 + boid_settings.margin {
                vel.z = vel.z + boid_settings.turn_factor;
            } else if pos.z > DEPTH / 2 - boid_settings.margin {
                vel.z = vel.z - boid_settings.turn_factor;
            }
            assert(vel@ == confined_velocity(a.position@, a.velocity.velocity@, s));
            agents[t] = Agent {
                position: a.position,
                velocity: crate::agent::Velocity { velocity: vel },
                acceleration: a.acceleration,
                heading: a.heading,
                boid: a.boid,
            };
        } else {
            assert(a.velocity.velocity@ == confined_velocity(
                a.position@,
                a.velocity.velocity@,
                s,
            ));
        }
        t += 1;
    }
}

/// Confinement at the wall: an agent parked half a margin inside the lower
/// x wall receives the positive x nudge of exactly `turn_factor` on every
/// tick while `bounce_against_walls` is on, and none at all when it is off.
pub proof fn lemma_confinement_near_wall(pos: Vm, vel: Vm, s: BoidSettings)
    requires
        s.margin > 0,
        pos.x == -(WIDTH as int) / 2 + s.margin / 2,
    ensures
        s.bounce_against_walls ==> confined_velocity(pos, vel, s).x == vel.x + s.turn_factor,
        !s.bounce_against_walls ==> confined_velocity(pos, vel, s) == vel,
{
    vstd::arithmetic::div_mod::lemma_div_decreases(s.margin as int, 2);
}

} // verus!
