use boids_core::accumulate::apply_forces;
use boids_core::agent::{Acceleration, Agent, ApplyForceEvent, Boid, Obstacle, Velocity};
use boids_core::flocking::{
    alignment, attraction_to_target, avoid_obstacles, cohesion, flocking_system,
    is_in_field_of_view, separation,
};
use boids_core::settings::{BoidSettings, GroupsTargets};
use boids_core::spatial::SpatialIndex;
use boids_core::vec3::V3;

fn agent_at(x: i64, y: i64, z: i64, vx: i64, vy: i64, vz: i64, group: u8) -> Agent {
    Agent {
        position: V3::new(x, y, z),
        velocity: Velocity { velocity: V3::new(vx, vy, vz) },
        acceleration: Acceleration { acceleration: V3::zero() },
        heading: V3::new(0, 0, 1000),
        boid: Boid { group },
    }
}

#[test]
fn vector_norm_is_exact() {
    assert_eq!(V3::new(3000, 4000, 0).norm(), 5000);
    assert_eq!(V3::new(0, 0, 0).norm(), 0);
    assert_eq!(V3::new(1, 1, 1).norm(), 1);
    assert_eq!(V3::new(2, 0, 0).dist(V3::new(7, 0, 0)), 5);
}

#[test]
fn scaling_truncates_toward_zero() {
    let v = V3::new(-7, 7, -1).scale(1, 2);
    assert_eq!((v.x, v.y, v.z), (-3, 3, 0));
}

#[test]
fn default_settings_are_the_stock_set() {
    let s = BoidSettings::default();
    assert!(s.separation_range < s.alignment_range);
    assert!(s.alignment_range < s.cohesion_range);
    assert!(s.min_speed <= s.max_speed);
    assert!(s.bounce_against_walls);
    assert_eq!(s.count, 1000);
    assert_eq!(s.cohesion_range, 50_000);
    assert_eq!(s.alignment_range, 30_000);
    assert_eq!(s.separation_range, 20_000);
    assert_eq!(s.cohesion_coeff, 20_000);
    assert_eq!(s.alignment_coeff, 5_000);
    assert_eq!(s.separation_coeff, 20_000);
    assert_eq!(s.collision_coeff, 24_000);
    assert_eq!(s.attraction_coeff, 1_000);
    assert_eq!(s.min_speed, 20_000);
    assert_eq!(s.max_speed, 80_000);
    assert_eq!(s.field_of_view_cos, 707);
    let t = GroupsTargets::default();
    assert_eq!(t.targets.len(), 2);
    assert_eq!((t.targets[0].x, t.targets[0].y, t.targets[0].z), (-45_000, 50_000, 0));
    assert_eq!((t.targets[1].x, t.targets[1].y, t.targets[1].z), (45_000, 50_000, 0));
}

#[test]
fn sanitizing_clamps_transient_slider_states() {
    // A GUI mid-drag may present negative or oversized values; sanitizing
    // clamps each tunable into its accepted range.
    let mut s = BoidSettings::default();
    s.separation_coeff = -5_000;
    s.cohesion_range = 20_000_000;
    s.min_speed = -1;
    s.field_of_view_cos = 2_000;
    let c = s.sanitized();
    assert_eq!(c.separation_coeff, 0);
    assert_eq!(c.cohesion_range, 10_000_000);
    assert_eq!(c.min_speed, 0);
    assert_eq!(c.field_of_view_cos, 1_000);
    // Untouched fields pass through; a valid snapshot is returned as is.
    assert_eq!(c.max_speed, 80_000);
    assert_eq!(BoidSettings::default().sanitized(), BoidSettings::default());
}

#[test]
fn spatial_query_returns_exactly_the_near_agents() {
    let agents = vec![
        agent_at(0, 0, 0, 0, 0, 0, 0),
        agent_at(10_000, 0, 0, 0, 0, 0, 0),
        agent_at(0, 30_000, 0, 0, 0, 0, 0),
    ];
    let mut index = SpatialIndex::new();
    index.refresh(&agents);
    let near = index.query_within(V3::new(0, 0, 0), 15_000);
    assert_eq!(near, vec![0, 1]);
    let near_all = index.query_within(V3::new(0, 0, 0), 30_000);
    assert_eq!(near_all, vec![0, 1, 2]);
}

#[test]
fn stale_index_reflects_the_last_refresh_only() {
    let mut agents = vec![agent_at(0, 0, 0, 0, 0, 0, 0)];
    let mut index = SpatialIndex::new();
    index.refresh(&agents);
    // The agent moves, but the index still answers from the snapshot.
    agents[0].position = V3::new(20_000, 0, 0);
    let near = index.query_within(V3::new(0, 0, 0), 1_000);
    assert_eq!(near, vec![0]);
    index.refresh(&agents);
    let near = index.query_within(V3::new(0, 0, 0), 1_000);
    assert!(near.is_empty());
}

#[test]
fn cohesion_pulls_toward_the_centroid() {
    let neighbors = vec![V3::new(10_000, 0, 0), V3::new(20_000, 10_000, 0)];
    let f = cohesion(&V3::new(0, 0, 0), &neighbors, 20_000);
    assert_eq!((f.x, f.y, f.z), (300_000, 100_000, 0));
    let none = cohesion(&V3::new(0, 0, 0), &Vec::new(), 20_000);
    assert_eq!((none.x, none.y, none.z), (0, 0, 0));
}

#[test]
fn alignment_matches_the_average_velocity() {
    let neighbors = vec![V3::new(3000, 0, 0)];
    let f = alignment(&V3::new(1000, 0, 0), &neighbors, 5_000);
    assert_eq!((f.x, f.y, f.z), (10_000, 0, 0));
    let none = alignment(&V3::new(1000, 0, 0), &Vec::new(), 5_000);
    assert_eq!((none.x, none.y, none.z), (0, 0, 0));
}

#[test]
fn separation_pushes_away_inverse_to_distance() {
    let pairs = vec![(V3::new(5000, 0, 0), 5000)];
    let f = separation(&V3::new(0, 0, 0), &pairs, 20_000);
    assert_eq!((f.x, f.y, f.z), (-20_000, 0, 0));
    // A neighbor at zero distance contributes nothing.
    let zero_pair = vec![(V3::new(0, 0, 0), 0)];
    let g = separation(&V3::new(0, 0, 0), &zero_pair, 20_000);
    assert_eq!((g.x, g.y, g.z), (0, 0, 0));
}

#[test]
fn attraction_points_at_the_target() {
    let f = attraction_to_target(&V3::new(1000, 0, 0), &V3::new(-45_000, 50_000, 0), 1_000);
    assert_eq!((f.x, f.y, f.z), (-46_000, 50_000, 0));
}

#[test]
fn field_of_view_boundary_is_sharp() {
    // A 180 degree field of view: the cone boundary is the plane through
    // the agent, at ninety degrees from its velocity.
    let pos = V3::new(0, 0, 0);
    let vel = V3::new(1000, 0, 0);
    // Exactly on the boundary: included, with the exact distance.
    let on = is_in_field_of_view(&pos, &vel, &V3::new(0, 5000, 0), 0);
    assert_eq!(on, Some(5000));
    // One tick behind the plane: excluded.
    let past = is_in_field_of_view(&pos, &vel, &V3::new(-1, 5000, 0), 0);
    assert_eq!(past, None);
    // A stationary agent sees everything.
    let still = is_in_field_of_view(&pos, &V3::zero(), &V3::new(-1, 5000, 0), 0);
    assert_eq!(still, Some(5000));
    // A neighbor at zero distance is visible with distance zero.
    let zero = is_in_field_of_view(&pos, &vel, &V3::new(0, 0, 0), 707);
    assert_eq!(zero, Some(0));
    // Straight behind, with a 90 degree field of view: excluded.
    let behind = is_in_field_of_view(&pos, &vel, &V3::new(-5000, 0, 0), 707);
    assert_eq!(behind, None);
}

#[test]
fn neighbor_between_ranges_joins_alignment_only() {
    // One neighbor at distance 25_000: past separation (20_000), inside
    // alignment (30_000). Only the alignment rule reacts.
    let mut s = BoidSettings::default();
    s.cohesion_coeff = 1_000;
    s.alignment_coeff = 1_000;
    s.separation_coeff = 1_000;
    s.attraction_coeff = 0;
    let agents = vec![
        agent_at(0, 0, 0, 0, 0, 0, 0),
        agent_at(25_000, 0, 0, 4_000, 0, 0, 0),
    ];
    let mut index = SpatialIndex::new();
    index.refresh(&agents);
    let targets = GroupsTargets::default();
    let events = flocking_system(&agents, &index, &s, &targets);
    // Alignment for the still agent: average neighbor velocity (4000, 0, 0)
    // minus own velocity, times 1.0.
    assert_eq!(events[0].agent, 0);
    assert_eq!((events[0].force.x, events[0].force.y, events[0].force.z), (4_000, 0, 0));
}

#[test]
fn obstacle_avoidance_fades_with_surface_distance() {
    let s = BoidSettings::default();
    let agents = vec![agent_at(0, 0, 0, 0, 0, 0, 0)];
    let obstacles = vec![Obstacle { position: V3::new(15_000, 0, 0), radius: 10_000 }];
    let events = avoid_obstacles(&agents, &obstacles, &s);
    assert_eq!(events.len(), 1);
    assert_eq!(events[0].agent, 0);
    // Surface distance 5000 of a 40_000 shell: falloff 125 of 1000, so
    // strength 875; direction (-1000, 0, 0); coefficient 24.0.
    assert_eq!((events[0].force.x, events[0].force.y, events[0].force.z), (-21_000, 0, 0));
}

#[test]
fn agent_inside_an_obstacle_is_not_pushed() {
    let s = BoidSettings::default();
    let agents = vec![agent_at(15_000, 0, 0, 0, 0, 0, 0)];
    let obstacles = vec![Obstacle { position: V3::new(15_000, 0, 0), radius: 10_000 }];
    let events = avoid_obstacles(&agents, &obstacles, &s);
    assert_eq!((events[0].force.x, events[0].force.y, events[0].force.z), (0, 0, 0));
}

#[test]
fn isolated_agent_feels_only_attraction() {
    let s = BoidSettings::default();
    let agents = vec![agent_at(0, 0, 0, 0, 0, 0, 0)];
    let mut index = SpatialIndex::new();
    index.refresh(&agents);
    let targets = GroupsTargets::default();
    let events = flocking_system(&agents, &index, &s, &targets);
    // attraction_coeff is 1.0; the target of group 0 is (-45_000, 50_000, 0).
    assert_eq!((events[0].force.x, events[0].force.y, events[0].force.z), (-45_000, 50_000, 0));
    let far_obstacles = vec![Obstacle { position: V3::new(60_000, 0, 0), radius: 10_000 }];
    let avoid = avoid_obstacles(&agents, &far_obstacles, &s);
    assert_eq!((avoid[0].force.x, avoid[0].force.y, avoid[0].force.z), (0, 0, 0));
}

#[test]
fn events_drop_unknown_agents_silently() {
    let mut agents = vec![agent_at(0, 0, 0, 0, 0, 0, 0)];
    let events = vec![ApplyForceEvent { agent: 5, force: V3::new(1000, 0, 0) }];
    apply_forces(&mut agents, &events);
    let acc = agents[0].acceleration.acceleration;
    assert_eq!((acc.x, acc.y, acc.z), (0, 0, 0));
}
