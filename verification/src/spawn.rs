//! Creation of the agent population: randomized positions inside the
//! simulation volume and randomized initial headings, scaled to the
//! configured minimum speed.

use vstd::prelude::*;
use crate::vec3::{V3, Vm, lemma_comp_le_norm, lemma_vscale_bound, lemma_nsq_nonneg};
use crate::math::lemma_isqrt_pos;
use crate::agent::{Agent, Boid, Velocity, Acceleration};
use crate::settings::BoidSettings;
use crate::{SCALE, AGENT_LIM};

verus! {

/// Relies on rand::random: a fresh pseudo-random 64-bit value. Nothing is
/// assumed of the value; callers prove their contracts for every outcome.
#[verifier::external_body]
fn random_u64() -> (r: u64) {
    rand::random::<u64>()
}

/// Map a raw random value into `[lo, hi)`.
fn rand_range(r: u64, lo: i64, hi: i64) -> (v: i64)
    requires
        -1_000_000_000 <= lo < hi <= 1_000_000_000,
    ensures
        lo <= v < hi,
        v as int == lo + r as int % (hi - lo),
{
    let span = (hi - lo) as u64;
    let m = r % span;
    proof {
        vstd::arithmetic::div_mod::lemma_mod_division_less_than_divisor(r as int, span as int);
        vstd::arithmetic::div_mod::lemma_mod_bound(r as int, span as int);
    }
    lo + (m as i64)
}

/// The spawn volume: agents appear inside 90% of the width and depth of the
/// simulation volume and below 95% of its height.
pub open spec fn in_spawn_volume(p: Vm) -> bool {
    &&& -67_500 <= p.x < 67_500
    &&& 0 <= p.y < 95_000
    &&& -67_500 <= p.z < 67_500
}

/// The initial heading direction encoded by three raw random values: each
/// component falls in `[-1000, 1000]`.
pub open spec fn seed_dir(hx: u64, hy: u64, hz: u64) -> Vm {
    Vm { x: -1000 + hx as int % 2001, y: -1000 + hy as int % 2001, z: -1000 + hz as int % 2001 }
}

/// Build one agent from seven raw random values: one for the group, three
/// for the position, three for the initial heading. The initial velocity
/// points along the seeded direction, rescaled to speed `min_speed` within
/// the fixed-point rounding tolerance (exactly `min_speed` along an axis
/// when the seed direction degenerates to zero).
pub fn make_boid(
    rg: u64,
    rx: u64,
    ry: u64,
    rz: u64,
    hx: u64,
    hy: u64,
    hz: u64,
    boid_settings: &BoidSettings,
) -> (a: Agent)
    requires
        boid_settings.valid(),
    ensures
        a.boid.group == rg % 2,
        a.position@ == (Vm {
            x: -67_500 + rx as int % 135_000,
            y: ry as int % 95_000,
            z: -67_500 + rz as int % 135_000,
        }),
        in_spawn_volume(a.position@),
        a.velocity.velocity@ == if seed_dir(hx, hy, hz).nsq() > 0 {
            crate::integrate::rescaled(seed_dir(hx, hy, hz), boid_settings.min_speed as int)
        } else {
            Vm { x: boid_settings.min_speed as int, y: 0, z: 0 }
        },
        a.velocity.velocity@.bounded(boid_settings.min_speed as int),
        a.velocity.velocity@.nsq() >= boid_settings.min_speed * boid_settings.min_speed - 6
            * boid_settings.min_speed,
        a.acceleration.acceleration@.is_zero(),
        a.heading@ == (Vm { x: 0, y: 0, z: SCALE as int }),
        a.wf(),
{
    let group = (rg % 2) as u8;
    let px = rand_range(rx, -67_500, 67_500);
    let py = rand_range(ry, 0, 95_000);
    let pz = rand_range(rz, -67_500, 67_500);
    let dx = rand_range(hx, -1000, 1001);
    let dy = rand_range(hy, -1000, 1001);
    let dz = rand_range(hz, -1000, 1001);
    let dir = V3::new(dx, dy, dz);
    assert(dir@ == seed_dir(hx, hy, hz));
    let n2 = dir.nsq_wide();
    proof {
        lemma_nsq_nonneg(dir@);
    }
    let velocity: V3;
    if n2 > 0 {
        let d = dir.norm();
        proof {
            lemma_isqrt_pos(dir@.nsq() as nat);
            lemma_comp_le_norm(dir@);
            lemma_vscale_bound(dir@, boid_settings.min_speed as int, d as int, 1);
            crate::integrate::lemma_rescaled_bounds(dir@, boid_settings.min_speed as int);
        }
        velocity = dir.scale(boid_settings.min_speed, d);
    } else {
        velocity = V3::new(boid_settings.min_speed, 0, 0);
        proof {
            let m = boid_settings.min_speed as int;
            assert(velocity@.nsq() == m * m) by (nonlinear_arith)
                requires
                    velocity@ == (Vm { x: m, y: 0, z: 0 }),
            ;
        }
    }
    Agent {
        position: V3::new(px, py, pz),
        velocity: Velocity { velocity },
        acceleration: Acceleration { acceleration: V3::zero() },
        heading: V3::new(0, 0, SCALE),
        boid: Boid { group },
    }
}

/// Spawn one agent with a random position and heading and push it onto the
/// population. The position and heading are random; what holds of every
/// outcome is stated below.
pub fn spawn_boid_entity(agents: &mut Vec<Agent>, boid_settings: &BoidSettings)
    requires
        boid_settings.valid(),
        old(agents)@.len() < AGENT_LIM,
    ensures
        final(agents)@.len() == old(agents)@.len() + 1,
        forall|t: int| 0 <= t < old(agents)@.len() ==> final(agents)@[t] == old(agents)@[t],
        ({
            let a = final(agents)@[old(agents)@.len() as int];
            &&& a.wf()
            &&& a.boid.group < 2
            &&& in_spawn_volume(a.position@)
            &&& a.velocity.velocity@.bounded(boid_settings.min_speed as int)
            &&& a.velocity.velocity@.nsq() >= boid_settings.min_speed * boid_settings.min_speed - 6
                * boid_settings.min_speed
            &&& a.acceleration.acceleration@.is_zero()
        }),
{
    let rg = random_u64();
    let rx = random_u64();
    let ry = random_u64();
    let rz = random_u64();
    let hx = random_u64();
    let hy = random_u64();
    let hz = random_u64();
    let a = make_boid(rg, rx, ry, rz, hx, hy, hz, boid_settings);
    agents.push(a);
}

/// Spawn `boid_settings.count` agents.
pub fn spawn_boids(agents: &mut Vec<Agent>, boid_settings: &BoidSettings)
    requires
        boid_settings.valid(),
        old(agents)@.len() + boid_settings.count <= AGENT_LIM,
    ensures
        final(agents)@.len() == old(agents)@.len() + boid_settings.count,
        forall|t: int| 0 <= t < old(agents)@.len() ==> final(agents)@[t] == old(agents)@[t],
        forall|t: int|
            old(agents)@.len() <= t < final(agents)@.len() ==> {
                let a = #[trigger] final(agents)@[t];
                &&& a.wf()
                &&& a.boid.group < 2
                &&& in_spawn_volume(a.position@)
                &&& a.velocity.velocity@.bounded(boid_settings.min_speed as int)
                &&& a.velocity.velocity@.nsq() >= boid_settings.min_speed * boid_settings.min_speed
                    - 6 * boid_settings.min_speed
                &&& a.acceleration.acceleration@.is_zero()
            },
{
    let count = boid_settings.count;
    let base = agents.len();
    let mut k: usize = 0;
    while k < count
        invariant
            boid_settings.valid(),
            base == old(agents)@.len(),
            base + count <= AGENT_LIM,
            k <= count,
            agents@.len() == base + k,
            forall|t: int| 0 <= t < base ==> agents@[t] == old(agents)@[t],
            forall|t: int|
                base <= t < agents@.len() ==> {
                    let a = #[trigger] agents@[t];
                    &&& a.wf()
                    &&& a.boid.group < 2
                    &&& in_spawn_volume(a.position@)
                    &&& a.velocity.velocity@.bounded(boid_settings.min_speed as int)
                    &&& a.velocity.velocity@.nsq() >= boid_settings.min_speed
                        * boid_settings.min_speed - 6 * boid_settings.min_speed
                    &&& a.acceleration.acceleration@.is_zero()
                },
        decreases count - k,
    {
        spawn_boid_entity(agents, boid_settings);
        k += 1;
    }
}

/// The fixed obstacle course: three spheres inside the volume.
pub fn spawn_obstacles() -> (obstacles: Vec<crate::agent::Obstacle>)
    ensures
        obstacles@.len() == 3,
        forall|t: int| 0 <= t < obstacles@.len() ==> (#[trigger] obstacles@[t]).wf(),
        obstacles@[0].position@ == (Vm { x: 30_000, y: 40_000, z: 0 }),
        obstacles@[1].position@ == (Vm { x: -30_000, y: 60_000, z: 20_000 }),
        obstacles@[2].position@ == (Vm { x: 0, y: 30_000, z: -30_000 }),
        forall|t: int| 0 <= t < obstacles@.len() ==> (#[trigger] obstacles@[t]).radius == 10_000,
{
    let a = crate::agent::Obstacle { position: V3::new(30_000, 40_000, 0), radius: 10_000 };
    let b = crate::agent::Obstacle { position: V3::new(-30_000, 60_000, 20_000), radius: 10_000 };
    let c = crate::agent::Obstacle { position: V3::new(0, 30_000, -30_000), radius: 10_000 };
    let obstacles: Vec<crate::agent::Obstacle> = vec![a, b, c];
    obstacles
}

} // verus!
