use boids_core::accumulate::apply_forces;
use boids_core::agent::{Acceleration, Agent, ApplyForceEvent, Boid, Obstacle, Velocity};
use boids_core::flocking::flocking_system;
use boids_core::integrate::{confine_boids, update_boids};
use boids_core::settings::{BoidSettings, GroupsTargets};
use boids_core::sim::tick;
use boids_core::spatial::SpatialIndex;
use boids_core::spawn::{spawn_boids, spawn_obstacles};
use boids_core::vec3::V3;

fn agent_at(x: i64, y: i64, z: i64, vx: i64, vy: i64, vz: i64, group: u8) -> Agent {
    Agent {
        position: V3::new(x, y, z),
        velocity: Velocity { velocity: V3::new(vx, vy, vz) },
        acceleration: Acceleration { acceleration: V3::zero() },
        heading: V3::new(0, 0, 1000),
        boid: Boid { group },
    }
}

fn separation_only() -> BoidSettings {
    let mut s = BoidSettings::default();
    s.cohesion_coeff = 0;
    s.alignment_coeff = 0;
    s.separation_coeff = 1_000;
    s.collision_coeff = 0;
    s.attraction_coeff = 0;
    s.min_speed = 0;
    s.bounce_against_walls = false;
    s
}

#[test]
fn accumulation_is_order_independent() {
    let e1 = vec![
        ApplyForceEvent { agent: 0, force: V3::new(1, 2, 3) },
        ApplyForceEvent { agent: 1, force: V3::new(5, 0, 0) },
        ApplyForceEvent { agent: 0, force: V3::new(10, -2, 7) },
    ];
    let e2 = vec![e1[2], e1[0], e1[1]];
    let mut a1 = vec![agent_at(0, 0, 0, 0, 0, 0, 0), agent_at(9000, 0, 0, 0, 0, 0, 0)];
    let mut a2 = a1.clone();
    apply_forces(&mut a1, &e1);
    apply_forces(&mut a2, &e2);
    for (x, y) in a1.iter().zip(a2.iter()) {
        assert_eq!(x.acceleration.acceleration, y.acceleration.acceleration);
    }
    let acc = a1[0].acceleration.acceleration;
    assert_eq!((acc.x, acc.y, acc.z), (11, 0, 10));
}

#[test]
fn speed_clamp_rescales_up_to_min() {
    let s = BoidSettings::default();
    // Speed 500 is below min_speed 20_000: rescaled exactly onto it.
    let mut agents = vec![agent_at(0, 0, 0, 300, 400, 0, 0)];
    update_boids(&mut agents, &s, 0);
    let v = agents[0].velocity.velocity;
    assert_eq!((v.x, v.y, v.z), (12_000, 16_000, 0));
    assert_eq!(v.norm(), 20_000);
}

#[test]
fn speed_clamp_rescales_down_to_max() {
    let s = BoidSettings::default();
    let mut agents = vec![agent_at(0, 0, 0, 90_000, 0, 0, 0)];
    update_boids(&mut agents, &s, 0);
    let v = agents[0].velocity.velocity;
    assert_eq!((v.x, v.y, v.z), (80_000, 0, 0));
}

#[test]
fn speed_in_band_is_untouched_and_zero_stays_zero() {
    let s = BoidSettings::default();
    let mut agents = vec![
        agent_at(0, 0, 0, 30_000, 40_000, 0, 0),
        agent_at(9000, 0, 0, 0, 0, 0, 0),
    ];
    update_boids(&mut agents, &s, 16);
    let v = agents[0].velocity.velocity;
    assert_eq!((v.x, v.y, v.z), (30_000, 40_000, 0));
    let z = agents[1].velocity.velocity;
    assert_eq!((z.x, z.y, z.z), (0, 0, 0));
    // The acceleration never leaks into the next tick.
    let acc = agents[0].acceleration.acceleration;
    assert_eq!((acc.x, acc.y, acc.z), (0, 0, 0));
}

#[test]
fn integrator_moves_and_faces_along_the_motion() {
    let mut s = BoidSettings::default();
    s.min_speed = 0;
    s.bounce_against_walls = false;
    let mut agents = vec![agent_at(1000, 2000, 0, 50_000, 0, 0, 0)];
    update_boids(&mut agents, &s, 100);
    let a = &agents[0];
    // position += velocity * dt: 50_000 * 100 / 1000 = 5_000.
    assert_eq!((a.position.x, a.position.y, a.position.z), (6_000, 2_000, 0));
    assert_eq!((a.heading.x, a.heading.y, a.heading.z), (1_000, 0, 0));
}

#[test]
fn confinement_nudges_near_the_walls() {
    let mut s = BoidSettings::default();
    // Parked half a margin inside the lower x wall (x = -75_000 + 5_000).
    let mut agents = vec![agent_at(-70_000, 50_000, 0, 0, 0, 0, 0)];
    confine_boids(&mut agents, &s);
    let v = agents[0].velocity.velocity;
    assert_eq!((v.x, v.y, v.z), (10_000, 0, 0));
    // Each tick adds the same nudge while the flag stays on.
    confine_boids(&mut agents, &s);
    assert_eq!(agents[0].velocity.velocity.x, 20_000);
    // With the flag off, no nudge.
    s.bounce_against_walls = false;
    let mut parked = vec![agent_at(-70_000, 50_000, 0, 0, 0, 0, 0)];
    confine_boids(&mut parked, &s);
    let w = parked[0].velocity.velocity;
    assert_eq!((w.x, w.y, w.z), (0, 0, 0));
}

#[test]
fn confinement_pushes_back_from_all_walls() {
    let s = BoidSettings::default();
    let mut agents = vec![agent_at(74_000, 99_000, -74_000, 0, 0, 0, 0)];
    confine_boids(&mut agents, &s);
    let v = agents[0].velocity.velocity;
    assert_eq!((v.x, v.y, v.z), (-10_000, -10_000, 10_000));
}

#[test]
fn two_agents_repel_symmetrically() {
    // Two agents five units apart, separation only: the one at the origin
    // is pushed toward negative x, the other the exact opposite.
    let s = separation_only();
    let agents = vec![agent_at(0, 0, 0, 0, 0, 0, 0), agent_at(5_000, 0, 0, 0, 0, 0, 0)];
    let mut index = SpatialIndex::new();
    index.refresh(&agents);
    let targets = GroupsTargets::default();
    let events = flocking_system(&agents, &index, &s, &targets);
    let mut accumulated = agents.clone();
    apply_forces(&mut accumulated, &events);
    let a0 = accumulated[0].acceleration.acceleration;
    let a1 = accumulated[1].acceleration.acceleration;
    assert_eq!((a0.x, a0.y, a0.z), (-1_000, 0, 0));
    assert_eq!((a1.x, a1.y, a1.z), (1_000, 0, 0));
    assert_eq!((a0.x + a1.x, a0.y + a1.y, a0.z + a1.z), (0, 0, 0));
}

#[test]
fn one_tick_of_the_full_pipeline() {
    let s = separation_only();
    let mut agents = vec![agent_at(0, 0, 0, 0, 0, 0, 0), agent_at(5_000, 0, 0, 0, 0, 0, 0)];
    let mut index = SpatialIndex::new();
    let obstacles: Vec<Obstacle> = Vec::new();
    let targets = GroupsTargets::default();
    tick(&mut agents, &mut index, &obstacles, &s, &targets, 16);
    // Force -1000 on the origin agent: dv = -1000 * 16 / 1000 = -16;
    // the position moves by -16 * 16 / 1000, which truncates to zero.
    let a0 = &agents[0];
    assert_eq!((a0.velocity.velocity.x, a0.velocity.velocity.y), (-16, 0));
    assert_eq!((a0.position.x, a0.position.y, a0.position.z), (0, 0, 0));
    assert_eq!((a0.heading.x, a0.heading.y, a0.heading.z), (-1000, 0, 0));
    let a1 = &agents[1];
    assert_eq!(a1.velocity.velocity.x, 16);
    assert_eq!(a1.position.x, 5_000);
    // Accelerations were consumed and reset.
    assert_eq!(a0.acceleration.acceleration.x, 0);
    assert_eq!(a1.acceleration.acceleration.x, 0);
}

#[test]
fn speeds_stay_bounded_over_many_ticks() {
    let s = BoidSettings::default();
    let mut agents = Vec::new();
    let mut spawn_settings = BoidSettings::default();
    spawn_settings.count = 40;
    spawn_boids(&mut agents, &spawn_settings);
    let obstacles = spawn_obstacles();
    let targets = GroupsTargets::default();
    let mut index = SpatialIndex::new();
    for _ in 0..50 {
        tick(&mut agents, &mut index, &obstacles, &s, &targets, 16);
        for a in agents.iter() {
            let v = a.velocity.velocity;
            let speed_sq = (v.x as i128) * (v.x as i128) + (v.y as i128) * (v.y as i128)
                + (v.z as i128) * (v.z as i128);
            // The speed bound: zero, or between the clamp bounds within the
            // rounding tolerance of one fixed-point rescale, plus at most
            // one confinement nudge of 10_000 on each axis.
            let vmax = (s.max_speed + 1 + 3 * s.turn_factor) as i128;
            assert!(speed_sq <= vmax * vmax);
            let vmin = (s.min_speed - 2 - 3 * s.turn_factor) as i128;
            assert!(speed_sq == 0 || speed_sq >= vmin * vmin || vmin <= 0);
        }
    }
}

#[test]
fn spawned_agents_start_inside_the_volume() {
    let mut s = BoidSettings::default();
    s.count = 200;
    let mut agents = Vec::new();
    spawn_boids(&mut agents, &s);
    assert_eq!(agents.len(), 200);
    for a in agents.iter() {
        assert!(a.boid.group < 2);
        assert!(-67_500 <= a.position.x && a.position.x < 67_500);
        assert!(0 <= a.position.y && a.position.y < 95_000);
        assert!(-67_500 <= a.position.z && a.position.z < 67_500);
        let v = a.velocity.velocity;
        // The heading is scaled to min_speed: no component exceeds it, and
        // the squared speed reaches it within the rounding tolerance.
        assert!(v.x.abs() <= s.min_speed && v.y.abs() <= s.min_speed && v.z.abs() <= s.min_speed);
        let speed_sq = (v.x as i128) * (v.x as i128) + (v.y as i128) * (v.y as i128)
            + (v.z as i128) * (v.z as i128);
        assert!(speed_sq >= (s.min_speed as i128) * (s.min_speed as i128) - 6 * (s.min_speed as i128));
        assert_eq!(a.acceleration.acceleration, V3::zero());
    }
    // The randomized positions are not all the same.
    assert!(agents.iter().any(|a| a.position.x != agents[0].position.x));
}

#[test]
fn spawned_obstacles_match_the_fixed_course() {
    let obstacles = spawn_obstacles();
    assert_eq!(obstacles.len(), 3);
    assert_eq!(obstacles[0].position.x, 30_000);
    assert_eq!(obstacles[1].position.y, 60_000);
    assert_eq!(obstacles[2].position.z, -30_000);
    for ob in obstacles.iter() {
        assert_eq!(ob.radius, 10_000);
    }
}
