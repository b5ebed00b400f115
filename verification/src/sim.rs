//! One simulation tick, in the fixed order of the pipeline: refresh the
//! spatial index, evaluate the neighbor rules and obstacle avoidance
//! against the refreshed snapshot, accumulate the emitted forces, integrate,
//! and confine.

use vstd::prelude::*;
use crate::vec3::Vm;
use crate::agent::{Agent, Obstacle};
use crate::settings::{BoidSettings, GroupsTargets};
use crate::spatial::SpatialIndex;
use crate::flocking::{flocking_system, avoid_obstacles, flock_force, avoid_force, views_of, positions_of};
use crate::accumulate::{apply_forces, events_total, lemma_events_total_one_per_agent};
use crate::integrate::{update_boids, confine_boids, integrated_velocity, integrated_position, integrated_heading, confined_velocity};
use crate::{COORD_LIM, DT_LIM, AGENT_LIM};

verus! {

/// The acceleration agent `t` accumulates over one tick: its flocking event
/// plus its obstacle-avoidance event.
pub open spec fn tick_accel(
    agents: Seq<Agent>,
    t: int,
    obstacles: Seq<Obstacle>,
    s: BoidSettings,
    targets: Seq<Vm>,
) -> Vm {
    flock_force(agents, t, s, targets).vadd(avoid_force(agents[t].position@, obstacles, s))
}

/// Advance the whole simulation by one tick of length `dt`.
///
/// The spatial index is refreshed first, so every rule evaluation this tick
/// sees the previous tick's committed positions; the index still holds that
/// stale snapshot when the tick ends.
pub fn tick(
    agents: &mut Vec<Agent>,
    index: &mut SpatialIndex,
    obstacles: &Vec<Obstacle>,
    boid_settings: &BoidSettings,
    groups_targets: &GroupsTargets,
    dt: i64,
)
    requires
        old(agents)@.len() <= AGENT_LIM,
        forall|t: int| 0 <= t < old(agents)@.len() ==> (#[trigger] old(agents)@[t]).wf(),
        forall|t: int|
            0 <= t < old(agents)@.len() ==> (#[trigger] old(
                agents,
            )@[t]).acceleration.acceleration@.is_zero(),
        forall|t: int|
            0 <= t < old(agents)@.len() ==> (#[trigger] old(agents)@[t]).boid.group
                < groups_targets.targets@.len(),
        boid_settings.valid(),
        groups_targets.valid(),
        obstacles@.len() <= AGENT_LIM,
        forall|t: int| 0 <= t < obstacles@.len() ==> (#[trigger] obstacles@[t]).wf(),
        0 <= dt <= DT_LIM,
    ensures
        final(agents)@.len() == old(agents)@.len(),
        final(index)@ == positions_of(old(agents)@),
        forall|t: int|
            0 <= t < old(agents)@.len() ==> {
                let a = old(agents)@[t];
                let acc = tick_accel(
                    old(agents)@,
                    t,
                    obstacles@,
                    *boid_settings,
                    views_of(groups_targets.targets@),
                );
                let b = #[trigger] final(agents)@[t];
                &&& b.position@ == integrated_position(
                    a.position@,
                    a.velocity.velocity@,
                    acc,
                    *boid_settings,
                    dt as int,
                )
                &&& b.velocity.velocity@ == confined_velocity(
                    b.position@,
                    integrated_velocity(a.velocity.velocity@, acc, *boid_settings, dt as int),
                    *boid_settings,
                )
                &&& b.heading@ == integrated_heading(
                    a.heading@,
                    a.velocity.velocity@,
                    acc,
                    *boid_settings,
                    dt as int,
                )
                &&& b.acceleration.acceleration@.is_zero()
                &&& b.boid == a.boid
                &&& b.velocity.velocity@.bounded(COORD_LIM as int)
                &&& b.position@.bounded(COORD_LIM as int + 50_000_000)
            },
{
    let ghost s = *boid_settings;
    let ghost tviews = views_of(groups_targets.targets@);
    let ghost agents0 = agents@;
    index.refresh(agents);
    proof {
        assert(index@ =~= positions_of(agents@));
    }
    let flock_events = flocking_system(agents, index, boid_settings, groups_targets);
    let avoid_events = avoid_obstacles(agents, obstacles, boid_settings);
    apply_forces(agents, &flock_events);
    proof {
        assert forall|t: int| 0 <= t < agents@.len() implies (#[trigger] agents@[t])
            .acceleration.acceleration@ == flock_force(agents0, t, s, tviews) && agents@[t]
            .acceleration.acceleration@.bounded(crate::FORCE_LIM as int) by {
            lemma_events_total_one_per_agent(flock_events@, t);
        }
    }
    apply_forces(agents, &avoid_events);
    proof {
        assert forall|t: int| 0 <= t < agents@.len() implies (#[trigger] agents@[t])
            .acceleration.acceleration@ == tick_accel(agents0, t, obstacles@, s, tviews)
            && agents@[t].wf() && agents@[t].position == agents0[t].position && agents@[t].velocity
            == agents0[t].velocity && agents@[t].heading == agents0[t].heading && agents@[t].boid
            == agents0[t].boid by {
            lemma_events_total_one_per_agent(avoid_events@, t);
        }
    }
    let ghost agents1 = agents@;
    update_boids(agents, boid_settings, dt);
    proof {
        assert forall|t: int| 0 <= t < agents@.len() implies {
            let a = agents0[t];
            let acc = tick_accel(agents0, t, obstacles@, s, tviews);
            let b = #[trigger] agents@[t];
            &&& b.velocity.velocity@ == integrated_velocity(
                a.velocity.velocity@,
                acc,
                s,
                dt as int,
            )
            &&& b.position@ == integrated_position(a.position@, a.velocity.velocity@, acc, s, dt as int)
            &&& b.heading@ == integrated_heading(a.heading@, a.velocity.velocity@, acc, s, dt as int)
        } by {
            assert(agents1[t].acceleration.acceleration@ == tick_accel(
                agents0,
                t,
                obstacles@,
                s,
                tviews,
            ));
        }
    }
    confine_boids(agents, boid_settings);
}

} // verus!
