//! Rule evaluators: cohesion, separation, alignment, attraction to the
//! group target, and the field-of-view filter that decides which neighbors
//! an agent sees.
//!
//! Every function here is pure: it reads the committed state of the last
//! tick and produces force contributions, without touching shared state.

use vstd::prelude::*;
use crate::vec3::{V3, Vm, vsum_prefix, lemma_vscale_bound, lemma_comp_le_norm, lemma_vdot_bound, lemma_nsq_bound, lemma_nsq_nonneg};
use crate::math::lemma_mul_bound;
use crate::agent::{Agent, ApplyForceEvent, Obstacle};
use crate::settings::{BoidSettings, GroupsTargets};
use crate::spatial::{SpatialIndex, within_ids, lemma_within_ids_members};
use crate::{SCALE, COORD_LIM, COEFF_LIM, FORCE_LIM, AGENT_LIM};

verus! {

/// Views of a sequence of fixed-point vectors.
pub open spec fn views_of(s: Seq<V3>) -> Seq<Vm> {
    s.map(|k: int, v: V3| v@)
}

/// Views of a sequence of (position, distance) pairs.
pub open spec fn pair_views(s: Seq<(V3, i64)>) -> Seq<(Vm, int)> {
    s.map(|k: int, p: (V3, i64)| (p.0@, p.1 as int))
}

/// Whether `other` lies inside the forward view cone of an agent at `pos`
/// moving with `vel`. `cos_milli` is the cosine of the cone's half-angle in
/// fixed point, so the real condition `dot >= cos * |vel| * |d|` is decided
/// exactly by comparing squares (`1_000_000` is the square of the scale).
/// An agent at zero distance, or one that is not moving, sees everything;
/// a neighbor exactly on the cone boundary is seen.
pub open spec fn in_field_of_view(pos: Vm, vel: Vm, other: Vm, cos_milli: int) -> bool {
    let d = other.vsub(pos);
    let dd = d.nsq();
    let vv = vel.nsq();
    let dot = vel.vdot(d);
    if dd == 0 || vv == 0 {
        true
    } else if cos_milli >= 0 {
        dot >= 0 && (dot * dot) * 1_000_000 >= ((cos_milli * cos_milli) * vv) * dd
    } else {
        dot >= 0 || (dot * dot) * 1_000_000 <= ((cos_milli * cos_milli) * vv) * dd
    }
}

/// Centroid attraction: pull toward the average position of the cohesion
/// band, zero when the band is empty.
pub open spec fn cohesion_spec(pos: Vm, neighbors: Seq<Vm>, coeff: int) -> Vm {
    if neighbors.len() == 0 {
        Vm { x: 0, y: 0, z: 0 }
    } else {
        vsum_prefix(neighbors, neighbors.len() as int).vscale(1, neighbors.len() as int).vsub(
            pos,
        ).vscale(coeff, SCALE as int)
    }
}

/// Velocity matching: steer toward the average velocity of the alignment
/// band, zero when the band is empty.
pub open spec fn alignment_spec(vel: Vm, neighbors: Seq<Vm>, coeff: int) -> Vm {
    if neighbors.len() == 0 {
        Vm { x: 0, y: 0, z: 0 }
    } else {
        vsum_prefix(neighbors, neighbors.len() as int).vscale(1, neighbors.len() as int).vsub(
            vel,
        ).vscale(coeff, SCALE as int)
    }
}

/// Sum of inverse-distance-weighted repulsion directions over the first `k`
/// (position, distance) pairs; a pair at distance zero contributes nothing.
pub open spec fn sep_sum_prefix(pos: Vm, pairs: Seq<(Vm, int)>, k: int) -> Vm
    recommends
        0 <= k <= pairs.len(),
    decreases k,
{
    if k <= 0 {
        Vm { x: 0, y: 0, z: 0 }
    } else {
        let pre = sep_sum_prefix(pos, pairs, k - 1);
        if pairs[k - 1].1 > 0 {
            pre.vadd(pos.vsub(pairs[k - 1].0).vscale(SCALE as int, pairs[k - 1].1))
        } else {
            pre
        }
    }
}

/// Repulsion away from the separation band, weighted by inverse distance.
pub open spec fn separation_spec(pos: Vm, pairs: Seq<(Vm, int)>, coeff: int) -> Vm {
    sep_sum_prefix(pos, pairs, pairs.len() as int).vscale(coeff, SCALE as int)
}

/// Constant pull toward the agent's group target.
pub open spec fn attraction_spec(pos: Vm, target: Vm, coeff: int) -> Vm {
    target.vsub(pos).vscale(coeff, SCALE as int)
}

/// Field-of-view filter. Returns the fixed-point distance to `other_pos`
/// when it is visible from `position` looking along `velocity`, and `None`
/// when it falls outside the view cone.
pub fn is_in_field_of_view(position: &V3, velocity: &V3, other_pos: &V3, cos_milli: i64) -> (r:
    Option<i64>)
    requires
        position@.bounded(COORD_LIM as int),
        velocity@.bounded(COORD_LIM as int),
        other_pos@.bounded(COORD_LIM as int),
        -SCALE <= cos_milli <= SCALE,
    ensures
        r is Some <==> in_field_of_view(position@, velocity@, other_pos@, cos_milli as int),
        r is Some ==> r->Some_0 as int == other_pos@.vsub(position@).norm()
            && 0 <= r->Some_0 <= 40_000_000,
{
    let to_other = other_pos.sub(*position);
    proof {
        lemma_nsq_bound(to_other@, 2 * COORD_LIM as int);
        lemma_comp_le_norm(to_other@);
        crate::vec3::lemma_norm_le(to_other@, 2 * COORD_LIM as int);
    }
    let dist = to_other.norm();
    let dd = to_other.nsq_wide();
    let vv = velocity.nsq_wide();
    proof {
        lemma_nsq_nonneg(to_other@);
        lemma_nsq_nonneg(velocity@);
    }
    if dd == 0 || vv == 0 {
        return Some(dist);
    }
    let dot = velocity.dot_wide(to_other);
    proof {
        lemma_vdot_bound(velocity@, to_other@, COORD_LIM as int, 2 * COORD_LIM as int);
        lemma_mul_bound(dot as int, dot as int, 600_000_000_000_000, 600_000_000_000_000);
        lemma_mul_bound(
            (dot * dot) as int,
            1_000_000,
            360_000_000_000_000_000_000_000_000_000,
            1_000_000,
        );
        lemma_mul_bound(cos_milli as int, cos_milli as int, 1_000, 1_000);
        lemma_nsq_bound(velocity@, COORD_LIM as int);
        lemma_mul_bound((cos_milli * cos_milli) as int, vv as int, 1_000_000, 300_000_000_000_000);
        lemma_mul_bound(
            ((cos_milli as int) * (cos_milli as int) * (vv as int)),
            dd as int,
            300_000_000_000_000_000_000,
            1_200_000_000_000_000,
        );
    }
    let lhs: i128 = (dot * dot) * 1_000_000;
    let c: i128 = cos_milli as i128;
    let rhs: i128 = ((c * c) * vv) * dd;
    let visible = if cos_milli >= 0 {
        dot >= 0 && lhs >= rhs
    } else {
        dot >= 0 || lhs <= rhs
    };
    if visible {
        Some(dist)
    } else {
        None
    }
}

/// Cohesion rule: steer toward the centroid of the cohesion-band neighbors.
pub fn cohesion(position: &V3, cohesion_neighbors: &Vec<V3>, cohesion_coeff: i64) -> (r: V3)
    requires
        position@.bounded(COORD_LIM as int),
        forall|t: int|
            0 <= t < cohesion_neighbors@.len() ==> (#[trigger] cohesion_neighbors@[t])@.bounded(
                COORD_LIM as int,
            ),
        cohesion_neighbors@.len() <= AGENT_LIM,
        0 <= cohesion_coeff <= COEFF_LIM,
    ensures
        r@ == cohesion_spec(position@, views_of(cohesion_neighbors@), cohesion_coeff as int),
        r@.bounded(20_000_000_000),
{
    let n = cohesion_neighbors.len();
    if n == 0 {
        let z = V3::zero();
        assert(views_of(cohesion_neighbors@).len() == 0);
        return z;
    }
    let ghost vs = views_of(cohesion_neighbors@);
    let mut sum = V3::zero();
    let mut k: usize = 0;
    while k < n
        invariant
            n == cohesion_neighbors@.len() <= AGENT_LIM,
            k <= n,
            vs == views_of(cohesion_neighbors@),
            forall|t: int| 0 <= t < n ==> (#[trigger] vs[t]).bounded(COORD_LIM as int),
            sum@ == vsum_prefix(vs, k as int),
            sum@.bounded(k as int * COORD_LIM as int),
        decreases n - k,
    {
        assert(cohesion_neighbors@[k as int]@ == vs[k as int]);
        sum = sum.add(cohesion_neighbors[k]);
        proof {
            assert((k + 1) as int * COORD_LIM as int == k as int * COORD_LIM as int
                + COORD_LIM as int) by (nonlinear_arith);
        }
        k += 1;
    }
    proof {
        lemma_vscale_bound(sum@, 1, n as int, COORD_LIM as int);
    }
    let center = sum.scale(1, n as i64);
    let diff = center.sub(*position);
    proof {
        assert(diff@.bounded(20_000 * SCALE as int));
        lemma_vscale_bound(diff@, cohesion_coeff as int, SCALE as int, 20_000);
        assert(20_000 * cohesion_coeff <= 20_000_000_000) by (nonlinear_arith)
            requires
                0 <= cohesion_coeff <= 1_000_000,
        ;
    }
    diff.scale(cohesion_coeff, SCALE)
}

/// Alignment rule: steer toward the average velocity of the alignment band.
pub fn alignment(velocity: &V3, alignment_neighbors: &Vec<V3>, alignment_coeff: i64) -> (r: V3)
    requires
        velocity@.bounded(COORD_LIM as int),
        forall|t: int|
            0 <= t < alignment_neighbors@.len() ==> (#[trigger] alignment_neighbors@[t])@.bounded(
                COORD_LIM as int,
            ),
        alignment_neighbors@.len() <= AGENT_LIM,
        0 <= alignment_coeff <= COEFF_LIM,
    ensures
        r@ == alignment_spec(velocity@, views_of(alignment_neighbors@), alignment_coeff as int),
        r@.bounded(20_000_000_000),
{
    let n = alignment_neighbors.len();
    if n == 0 {
        let z = V3::zero();
        assert(views_of(alignment_neighbors@).len() == 0);
        return z;
    }
    let ghost vs = views_of(alignment_neighbors@);
    let mut sum = V3::zero();
    let mut k: usize = 0;
    while k < n
        invariant
            n == alignment_neighbors@.len() <= AGENT_LIM,
            k <= n,
            vs == views_of(alignment_neighbors@),
            forall|t: int| 0 <= t < n ==> (#[trigger] vs[t]).bounded(COORD_LIM as int),
            sum@ == vsum_prefix(vs, k as int),
            sum@.bounded(k as int * COORD_LIM as int),
        decreases n - k,
    {
        assert(alignment_neighbors@[k as int]@ == vs[k as int]);
        sum = sum.add(alignment_neighbors[k]);
        proof {
            assert((k + 1) as int * COORD_LIM as int == k as int * COORD_LIM as int
                + COORD_LIM as int) by (nonlinear_arith);
        }
        k += 1;
    }
    proof {
        lemma_vscale_bound(sum@, 1, n as int, COORD_LIM as int);
    }
    let avg = sum.scale(1, n as i64);
    let diff = avg.sub(*velocity);
    proof {
        assert(diff@.bounded(20_000 * SCALE as int));
        lemma_vscale_bound(diff@, alignment_coeff as int, SCALE as int, 20_000);
        assert(20_000 * alignment_coeff <= 20_000_000_000) by (nonlinear_arith)
            requires
                0 <= alignment_coeff <= 1_000_000,
        ;
    }
    diff.scale(alignment_coeff, SCALE)
}

/// Separation rule: push away from each separation-band neighbor, weighted
/// by inverse distance; pairs at distance zero are skipped.
pub fn separation(position: &V3, repulsion_neighbors: &Vec<(V3, i64)>, separation_coeff: i64) -> (r:
    V3)
    requires
        position@.bounded(COORD_LIM as int),
        forall|t: int|
            0 <= t < repulsion_neighbors@.len() ==> (#[trigger] repulsion_neighbors@[t]).1 >= 0 && (
            repulsion_neighbors@[t].1 > 0 ==> position@.vsub(repulsion_neighbors@[t].0@).bounded(
                repulsion_neighbors@[t].1 as int,
            )),
        repulsion_neighbors@.len() <= AGENT_LIM,
        0 <= separation_coeff <= COEFF_LIM,
    ensures
        r@ == separation_spec(position@, pair_views(repulsion_neighbors@), separation_coeff as int),
        r@.bounded(100_000_000_000),
{
    let n = repulsion_neighbors.len();
    let ghost ps = pair_views(repulsion_neighbors@);
    let mut sum = V3::zero();
    let mut k: usize = 0;
    while k < n
        invariant
            n == repulsion_neighbors@.len() <= AGENT_LIM,
            k <= n,
            ps == pair_views(repulsion_neighbors@),
            position@.bounded(COORD_LIM as int),
            forall|t: int|
                0 <= t < n ==> (#[trigger] repulsion_neighbors@[t]).1 >= 0 && (
                repulsion_neighbors@[t].1 > 0 ==> position@.vsub(
                    repulsion_neighbors@[t].0@,
                ).bounded(repulsion_neighbors@[t].1 as int)),
            sum@ == sep_sum_prefix(position@, ps, k as int),
            sum@.bounded(k as int * SCALE as int),
        decreases n - k,
    {
        let (other, d) = repulsion_neighbors[k];
        assert(ps[k as int] == (other@, d as int));
        if d > 0 {
            let diff = position.sub(other);
            proof {
                lemma_vscale_bound(diff@, SCALE as int, d as int, 1);
            }
            let term = diff.scale(SCALE, d);
            proof {
                assert((k + 1) as int * SCALE as int == k as int * SCALE as int + SCALE as int)
                    by (nonlinear_arith);
            }
            sum = sum.add(term);
        } else {
            proof {
                assert((k + 1) as int * SCALE as int >= k as int * SCALE as int)
                    by (nonlinear_arith);
            }
        }
        k += 1;
    }
    proof {
        assert(sum@.bounded(100_000 * SCALE as int)) by {
            assert(k as int * SCALE as int <= 100_000 * SCALE as int) by (nonlinear_arith)
                requires
                    k <= 100_000,
        ;
        };
        lemma_vscale_bound(sum@, separation_coeff as int, SCALE as int, 100_000);
        assert(100_000 * separation_coeff <= 100_000_000_000) by (nonlinear_arith)
            requires
                0 <= separation_coeff <= 1_000_000,
        ;
    }
    sum.scale(separation_coeff, SCALE)
}

/// Attraction rule: constant pull toward the agent's group target.
pub fn attraction_to_target(position: &V3, target: &V3, attraction_coeff: i64) -> (r: V3)
    requires
        position@.bounded(COORD_LIM as int),
        target@.bounded(COORD_LIM as int),
        0 <= attraction_coeff <= COEFF_LIM,
    ensures
        r@ == attraction_spec(position@, target@, attraction_coeff as int),
        r@.bounded(20_000_000_000),
{
    let diff = target.sub(*position);
    proof {
        assert(diff@.bounded(20_000 * SCALE as int));
        lemma_vscale_bound(diff@, attraction_coeff as int, SCALE as int, 20_000);
        assert(20_000 * attraction_coeff <= 20_000_000_000) by (nonlinear_arith)
            requires
                0 <= attraction_coeff <= 1_000_000,
        ;
    }
    diff.scale(attraction_coeff, SCALE)
}

/// The band a visible neighbor falls in, checked narrowest-first; a neighbor
/// contributes to exactly one band.
#[derive(Clone, Copy, PartialEq, Eq, Structural, Debug)]
pub enum Band {
    Separation,
    Alignment,
    Cohesion,
    Outside,
}

/// The position snapshot of a population, as mathematical vectors.
pub open spec fn positions_of(agents: Seq<Agent>) -> Seq<Vm> {
    agents.map(|k: int, a: Agent| a.position@)
}

/// Fixed-point distance from agent `i` to agent `j`.
pub open spec fn neighbor_dist(agents: Seq<Agent>, i: int, j: int) -> int {
    agents[j].position@.vsub(agents[i].position@).norm()
}

/// Which band neighbor `j` of agent `i` contributes to: itself and agents
/// outside the view cone contribute to none.
pub open spec fn neighbor_band(agents: Seq<Agent>, i: int, j: int, s: BoidSettings) -> Band {
    if j == i || !in_field_of_view(
        agents[i].position@,
        agents[i].velocity.velocity@,
        agents[j].position@,
        s.field_of_view_cos as int,
    ) {
        Band::Outside
    } else {
        let d = neighbor_dist(agents, i, j);
        if d < s.separation_range {
            Band::Separation
        } else if d < s.alignment_range {
            Band::Alignment
        } else if d < s.cohesion_range {
            Band::Cohesion
        } else {
            Band::Outside
        }
    }
}

/// The (position, distance) pairs of the separation band of agent `i`,
/// among the first `k` returned neighbor identifiers.
pub open spec fn sep_pairs(agents: Seq<Agent>, i: int, s: BoidSettings, ns: Seq<usize>, k: int) -> Seq<(Vm, int)>
    decreases k,
{
    if k <= 0 {
        Seq::empty()
    } else {
        let pre = sep_pairs(agents, i, s, ns, k - 1);
        let j = ns[k - 1] as int;
        if neighbor_band(agents, i, j, s) == Band::Separation {
            pre.push((agents[j].position@, neighbor_dist(agents, i, j)))
        } else {
            pre
        }
    }
}

/// The velocities of the alignment band of agent `i`, among the first `k`
/// returned neighbor identifiers.
pub open spec fn align_vels(agents: Seq<Agent>, i: int, s: BoidSettings, ns: Seq<usize>, k: int) -> Seq<Vm>
    decreases k,
{
    if k <= 0 {
        Seq::empty()
    } else {
        let pre = align_vels(agents, i, s, ns, k - 1);
        let j = ns[k - 1] as int;
        if neighbor_band(agents, i, j, s) == Band::Alignment {
            pre.push(agents[j].velocity.velocity@)
        } else {
            pre
        }
    }
}

/// The positions of the cohesion band of agent `i`, among the first `k`
/// returned neighbor identifiers.
pub open spec fn coh_positions(agents: Seq<Agent>, i: int, s: BoidSettings, ns: Seq<usize>, k: int) -> Seq<Vm>
    decreases k,
{
    if k <= 0 {
        Seq::empty()
    } else {
        let pre = coh_positions(agents, i, s, ns, k - 1);
        let j = ns[k - 1] as int;
        if neighbor_band(agents, i, j, s) == Band::Cohesion {
            pre.push(agents[j].position@)
        } else {
            pre
        }
    }
}

/// The neighbor identifiers the spatial index hands agent `i`: everyone
/// within the cohesion range (the widest per-agent radius), self included.
pub open spec fn neighbor_query(agents: Seq<Agent>, i: int, s: BoidSettings) -> Seq<usize> {
    within_ids(
        positions_of(agents),
        agents[i].position@,
        s.cohesion_range as int,
        agents.len() as int,
    )
}

/// The total steering force the neighbor rules emit for agent `i` in one
/// tick: cohesion, separation and alignment over the banded neighbors, plus
/// attraction to the agent's group target.
pub open spec fn flock_force(agents: Seq<Agent>, i: int, s: BoidSettings, targets: Seq<Vm>) -> Vm {
    let ns = neighbor_query(agents, i, s);
    let k = ns.len() as int;
    let pos = agents[i].position@;
    let vel = agents[i].velocity.velocity@;
    cohesion_spec(pos, coh_positions(agents, i, s, ns, k), s.cohesion_coeff as int).vadd(
        separation_spec(pos, sep_pairs(agents, i, s, ns, k), s.separation_coeff as int),
    ).vadd(alignment_spec(vel, align_vels(agents, i, s, ns, k), s.alignment_coeff as int)).vadd(
        attraction_spec(pos, targets[agents[i].boid.group as int], s.attraction_coeff as int),
    )
}

/// Run the neighbor rules for every agent against the refreshed spatial
/// index, emitting one force event per agent. Evaluation only reads the
/// committed state, so agents may be evaluated in any order or in parallel.
pub fn flocking_system(
    agents: &Vec<Agent>,
    index: &SpatialIndex,
    boid_settings: &BoidSettings,
    groups_targets: &GroupsTargets,
) -> (events: Vec<ApplyForceEvent>)
    requires
        agents@.len() <= AGENT_LIM,
        forall|t: int| 0 <= t < agents@.len() ==> (#[trigger] agents@[t]).wf(),
        boid_settings.valid(),
        groups_targets.valid(),
        forall|t: int|
            0 <= t < agents@.len() ==> (#[trigger] agents@[t]).boid.group
                < groups_targets.targets@.len(),
        index.wf(),
        index@.len() == agents@.len(),
        forall|t: int| 0 <= t < agents@.len() ==> index@[t] == (#[trigger] agents@[t]).position@,
    ensures
        events@.len() == agents@.len(),
        forall|t: int|
            0 <= t < events@.len() ==> (#[trigger] events@[t]).agent == t && events@[t].force@
                == flock_force(agents@, t, *boid_settings, views_of(groups_targets.targets@))
                && events@[t].wf(),
{
    let ghost tviews = views_of(groups_targets.targets@);
    proof {
        assert(index@ =~= positions_of(agents@));
    }
    let mut events: Vec<ApplyForceEvent> = Vec::new();
    let mut i: usize = 0;
    while i < agents.len()
        invariant
            agents@.len() <= AGENT_LIM,
            forall|t: int| 0 <= t < agents@.len() ==> (#[trigger] agents@[t]).wf(),
            boid_settings.valid(),
            groups_targets.valid(),
            forall|t: int|
                0 <= t < agents@.len() ==> (#[trigger] agents@[t]).boid.group
                    < groups_targets.targets@.len(),
            index.wf(),
            index@ == positions_of(agents@),
            index@.len() == agents@.len(),
            tviews == views_of(groups_targets.targets@),
            i <= agents@.len(),
            events@.len() == i,
            forall|t: int|
                0 <= t < i ==> (#[trigger] events@[t]).agent == t && events@[t].force@
                    == flock_force(agents@, t, *boid_settings, tviews) && events@[t].wf(),
        decreases agents@.len() - i,
    {
        let pos = agents[i].position;
        let vel = agents[i].velocity.velocity;
        let ns = index.query_within(pos, boid_settings.cohesion_range);
        let ghost nsv = ns@;
        proof {
            assert(nsv == neighbor_query(agents@, i as int, *boid_settings));
            lemma_within_ids_members(
                positions_of(agents@),
                pos@,
                boid_settings.cohesion_range as int,
                agents@.len() as int,
            );
        }
        let mut rep: Vec<(V3, i64)> = Vec::new();
        let mut ali: Vec<V3> = Vec::new();
        let mut coh: Vec<V3> = Vec::new();
        let mut k: usize = 0;
        while k < ns.len()
            invariant
                agents@.len() <= AGENT_LIM,
                forall|t: int| 0 <= t < agents@.len() ==> (#[trigger] agents@[t]).wf(),
                boid_settings.valid(),
                i < agents@.len(),
                pos == agents@[i as int].position,
                vel == agents@[i as int].velocity.velocity,
                nsv == ns@,
                nsv.len() <= agents@.len(),
                forall|t: int| 0 <= t < nsv.len() ==> (#[trigger] nsv[t]) < agents@.len(),
                k <= nsv.len(),
                pair_views(rep@) == sep_pairs(agents@, i as int, *boid_settings, nsv, k as int),
                views_of(ali@) == align_vels(agents@, i as int, *boid_settings, nsv, k as int),
                views_of(coh@) == coh_positions(agents@, i as int, *boid_settings, nsv, k as int),
                rep@.len() <= k,
                ali@.len() <= k,
                coh@.len() <= k,
                forall|t: int|
                    0 <= t < rep@.len() ==> (#[trigger] rep@[t]).1 >= 0 && (rep@[t].1 > 0
                        ==> pos@.vsub(rep@[t].0@).bounded(rep@[t].1 as int)),
                forall|t: int|
                    0 <= t < ali@.len() ==> (#[trigger] ali@[t])@.bounded(COORD_LIM as int),
                forall|t: int|
                    0 <= t < coh@.len() ==> (#[trigger] coh@[t])@.bounded(COORD_LIM as int),
            decreases nsv.len() - k,
        {
            let j = ns[k];
            let ghost rep0 = rep@;
            let ghost ali0 = ali@;
            let ghost coh0 = coh@;
            if j != i {
                let other = agents[j].position;
                match is_in_field_of_view(&pos, &vel, &other, boid_settings.field_of_view_cos) {
                    Some(dist) => {
                        proof {
                            lemma_comp_le_norm(other@.vsub(pos@));
                        }
                        if dist < boid_settings.separation_range {
                            rep.push((other, dist));
                        } else if dist < boid_settings.alignment_range {
                            ali.push(agents[j].velocity.velocity);
                        } else if dist < boid_settings.cohesion_range {
                            coh.push(other);
                        }
                    },
                    None => {},
                }
            }
            proof {
                let ghost ii = i as int;
                let ghost jj = nsv[k as int] as int;
                let ghost s = *boid_settings;
                assert(pair_views(rep@) == sep_pairs(agents@, ii, s, nsv, k as int + 1)) by {
                    if neighbor_band(agents@, ii, jj, s) == Band::Separation {
                        assert(rep@ == rep0.push(
                            (agents@[jj].position, neighbor_dist(agents@, ii, jj) as i64),
                        ));
                        assert(pair_views(rep@) =~= pair_views(rep0).push(
                            (agents@[jj].position@, neighbor_dist(agents@, ii, jj)),
                        ));
                    } else {
                        assert(rep@ == rep0);
                    }
                };
                assert(views_of(ali@) == align_vels(agents@, ii, s, nsv, k as int + 1)) by {
                    if neighbor_band(agents@, ii, jj, s) == Band::Alignment {
                        assert(ali@ == ali0.push(agents@[jj].velocity.velocity));
                        assert(views_of(ali@) =~= views_of(ali0).push(
                            agents@[jj].velocity.velocity@,
                        ));
                    } else {
                        assert(ali@ == ali0);
                    }
                };
                assert(views_of(coh@) == coh_positions(agents@, ii, s, nsv, k as int + 1)) by {
                    if neighbor_band(agents@, ii, jj, s) == Band::Cohesion {
                        assert(coh@ == coh0.push(agents@[jj].position));
                        assert(views_of(coh@) =~= views_of(coh0).push(agents@[jj].position@));
                    } else {
                        assert(coh@ == coh0);
                    }
                };
            }
            k += 1;
        }
        let cohesion_force = cohesion(&pos, &coh, boid_settings.cohesion_coeff);
        let separation_force = separation(&pos, &rep, boid_settings.separation_coeff);
        let alignment_force = alignment(&vel, &ali, boid_settings.alignment_coeff);
        let group = agents[i].boid.group;
        let target = groups_targets.targets[group as usize];
        proof {
            assert(target@ == tviews[group as int]);
        }
        let attraction_force = attraction_to_target(&pos, &target, boid_settings.attraction_coeff);
        let total = cohesion_force.add(separation_force).add(alignment_force).add(
            attraction_force,
        );
        proof {
            assert(total@ == flock_force(agents@, i as int, *boid_settings, tviews));
            assert(total@.bounded(FORCE_LIM as int));
        }
        events.push(ApplyForceEvent { agent: i, force: total });
        i += 1;
    }
    events
}

/// The avoidance contribution of one obstacle: inside the avoidance shell
/// (a positive surface distance below twice the separation range), push
/// radially away, stronger the closer the agent stands; on or inside the
/// surface, and outside the shell, nothing.
pub open spec fn obstacle_term(pos: Vm, ob: Obstacle, s: BoidSettings) -> Vm {
    let to_obs = ob.position@.vsub(pos);
    let dist = to_obs.norm();
    let sd = dist - ob.radius;
    if 0 < sd && sd < 2 * s.separation_range {
        let dir = pos.vsub(ob.position@).vscale(SCALE as int, dist);
        let strength = SCALE - crate::div_tz(sd * SCALE, 2 * s.separation_range);
        dir.vscale(strength, SCALE as int).vscale(s.collision_coeff as int, SCALE as int)
    } else {
        Vm { x: 0, y: 0, z: 0 }
    }
}

/// Avoidance force from the first `k` obstacles.
pub open spec fn avoid_sum(pos: Vm, obstacles: Seq<Obstacle>, s: BoidSettings, k: int) -> Vm
    recommends
        0 <= k <= obstacles.len(),
    decreases k,
{
    if k <= 0 {
        Vm { x: 0, y: 0, z: 0 }
    } else {
        avoid_sum(pos, obstacles, s, k - 1).vadd(obstacle_term(pos, obstacles[k - 1], s))
    }
}

/// Total obstacle-avoidance force on an agent at `pos`.
pub open spec fn avoid_force(pos: Vm, obstacles: Seq<Obstacle>, s: BoidSettings) -> Vm {
    avoid_sum(pos, obstacles, s, obstacles.len() as int)
}

/// Evaluate obstacle avoidance for every agent against every obstacle,
/// emitting one force event per agent. Obstacles are not gated by the field
/// of view: an agent avoids what it cannot see.
pub fn avoid_obstacles(
    agents: &Vec<Agent>,
    obstacles: &Vec<Obstacle>,
    boid_settings: &BoidSettings,
) -> (events: Vec<ApplyForceEvent>)
    requires
        agents@.len() <= AGENT_LIM,
        forall|t: int| 0 <= t < agents@.len() ==> (#[trigger] agents@[t]).wf(),
        obstacles@.len() <= AGENT_LIM,
        forall|t: int| 0 <= t < obstacles@.len() ==> (#[trigger] obstacles@[t]).wf(),
        boid_settings.valid(),
    ensures
        events@.len() == agents@.len(),
        forall|t: int|
            0 <= t < events@.len() ==> (#[trigger] events@[t]).agent == t && events@[t].force@
                == avoid_force(agents@[t].position@, obstacles@, *boid_settings) && events@[t].wf(),
{
    let ghost s = *boid_settings;
    let mut events: Vec<ApplyForceEvent> = Vec::new();
    let mut i: usize = 0;
    while i < agents.len()
        invariant
            agents@.len() <= AGENT_LIM,
            forall|t: int| 0 <= t < agents@.len() ==> (#[trigger] agents@[t]).wf(),
            obstacles@.len() <= AGENT_LIM,
            forall|t: int| 0 <= t < obstacles@.len() ==> (#[trigger] obstacles@[t]).wf(),
            s == *boid_settings,
            s.valid(),
            i <= agents@.len(),
            events@.len() == i,
            forall|t: int|
                0 <= t < i ==> (#[trigger] events@[t]).agent == t && events@[t].force@
                    == avoid_force(agents@[t].position@, obstacles@, s) && events@[t].wf(),
        decreases agents@.len() - i,
    {
        let position = agents[i].position;
        let mut avoidance_force = V3::zero();
        let mut k: usize = 0;
        while k < obstacles.len()
            invariant
                obstacles@.len() <= AGENT_LIM,
                forall|t: int| 0 <= t < obstacles@.len() ==> (#[trigger] obstacles@[t]).wf(),
                s == *boid_settings,
                s.valid(),
                position@.bounded(COORD_LIM as int),
                k <= obstacles@.len(),
                avoidance_force@ == avoid_sum(position@, obstacles@, s, k as int),
                avoidance_force@.bounded(k as int * COEFF_LIM as int),
            decreases obstacles@.len() - k,
        {
            let ob = obstacles[k];
            let to_obstacle = ob.position.sub(position);
            proof {
                lemma_comp_le_norm(to_obstacle@);
                crate::vec3::lemma_norm_le(to_obstacle@, 2 * COORD_LIM as int);
            }
            let distance = to_obstacle.norm();
            let surface_distance = distance - ob.radius;
            proof {
                assert((k + 1) as int * COEFF_LIM as int == k as int * COEFF_LIM as int
                    + COEFF_LIM as int) by (nonlinear_arith);
            }
            if surface_distance > 0 && surface_distance < 2 * boid_settings.separation_range {
                let repulsion_dir = position.sub(ob.position);
                proof {
                    lemma_vscale_bound(repulsion_dir@, SCALE as int, distance as int, 1);
                }
                let dir = repulsion_dir.scale(SCALE, distance);
                proof {
                    lemma_mul_bound(
                        surface_distance as int,
                        SCALE as int,
                        2 * s.separation_range as int,
                        SCALE as int,
                    );
                    crate::math::lemma_div_tz_bound(
                        surface_distance as int * SCALE as int,
                        2 * s.separation_range as int,
                        SCALE as int,
                    );
                    crate::math::lemma_div_tz_fundamental(
                        surface_distance as int * SCALE as int,
                        2 * s.separation_range as int,
                    );
                }
                let falloff = crate::math::div_fix(
                    surface_distance * SCALE,
                    2 * boid_settings.separation_range,
                );
                let strength = SCALE - falloff;
                proof {
                    lemma_vscale_bound(dir@, strength as int, SCALE as int, 1);
                }
                let shaped = dir.scale(strength, SCALE);
                proof {
                    lemma_vscale_bound(shaped@, s.collision_coeff as int, SCALE as int, 1);
                }
                let term = shaped.scale(boid_settings.collision_coeff, SCALE);
                avoidance_force = avoidance_force.add(term);
            }
            k += 1;
        }
        proof {
            assert(avoidance_force@.bounded(FORCE_LIM as int)) by {
                assert(k as int * COEFF_LIM as int <= FORCE_LIM as int) by (nonlinear_arith)
                    requires
                        k <= 100_000,
                        COEFF_LIM == 1_000_000i64,
                        FORCE_LIM == 1_000_000_000_000i64,
                ;
            };
        }
        events.push(ApplyForceEvent { agent: i, force: avoidance_force });
        i += 1;
    }
    events
}

/// With every obstacle outside its avoidance shell, the avoidance sum stays
/// zero.
proof fn lemma_avoid_sum_zero(pos: Vm, obstacles: Seq<Obstacle>, s: BoidSettings, k: int)
    requires
        0 <= k <= obstacles.len(),
        forall|t: int|
            0 <= t < obstacles.len() ==> {
                let sd = (#[trigger] obstacles[t]).position@.vsub(pos).norm() - obstacles[t].radius;
                sd <= 0 || sd >= 2 * s.separation_range
            },
    ensures
        avoid_sum(pos, obstacles, s, k).is_zero(),
    decreases k,
{
    if k > 0 {
        lemma_avoid_sum_zero(pos, obstacles, s, k - 1);
        assert(obstacle_term(pos, obstacles[k - 1], s).is_zero());
    }
}

/// When every returned neighbor identifier is the agent itself, all three
/// band lists are empty.
proof fn lemma_bands_empty_when_alone(
    agents: Seq<Agent>,
    i: int,
    s: BoidSettings,
    ns: Seq<usize>,
    k: int,
)
    requires
        0 <= k <= ns.len(),
        forall|t: int| 0 <= t < ns.len() ==> (#[trigger] ns[t]) as int == i,
    ensures
        sep_pairs(agents, i, s, ns, k).len() == 0,
        align_vels(agents, i, s, ns, k).len() == 0,
        coh_positions(agents, i, s, ns, k).len() == 0,
    decreases k,
{
    if k > 0 {
        lemma_bands_empty_when_alone(agents, i, s, ns, k - 1);
        assert(neighbor_band(agents, i, ns[k - 1] as int, s) == Band::Outside);
    }
}

/// An isolated agent — no other agent within the cohesion range, no
/// obstacle within its avoidance shell — experiences exactly the attraction
/// toward its group target and nothing else.
pub proof fn lemma_isolated_agent(
    agents: Seq<Agent>,
    i: int,
    s: BoidSettings,
    targets: Seq<Vm>,
    obstacles: Seq<Obstacle>,
)
    requires
        0 <= i < agents.len() <= AGENT_LIM,
        0 <= agents[i].boid.group < targets.len(),
        forall|j: int|
            0 <= j < agents.len() && j != i ==> !crate::spatial::within_radius(
                (#[trigger] agents[j]).position@,
                agents[i].position@,
                s.cohesion_range as int,
            ),
        forall|t: int|
            0 <= t < obstacles.len() ==> {
                let sd = (#[trigger] obstacles[t]).position@.vsub(
                    agents[i].position@,
                ).norm() - obstacles[t].radius;
                sd <= 0 || sd >= 2 * s.separation_range
            },
    ensures
        flock_force(agents, i, s, targets) == attraction_spec(
            agents[i].position@,
            targets[agents[i].boid.group as int],
            s.attraction_coeff as int,
        ),
        avoid_force(agents[i].position@, obstacles, s).is_zero(),
{
    let pos = agents[i].position@;
    let ns = neighbor_query(agents, i, s);
    let positions = positions_of(agents);
    lemma_within_ids_members(positions, pos, s.cohesion_range as int, agents.len() as int);
    assert forall|t: int| 0 <= t < ns.len() implies (#[trigger] ns[t]) as int == i by {
        let j = ns[t] as int;
        assert(ns.contains(ns[t]));
        crate::spatial::lemma_within_ids_complete(
            positions,
            pos,
            s.cohesion_range as int,
            agents.len() as int,
            j,
        );
        assert(positions[j] == agents[j].position@);
    }
    lemma_bands_empty_when_alone(agents, i, s, ns, ns.len() as int);
    assert(separation_spec(pos, sep_pairs(agents, i, s, ns, ns.len() as int), s.separation_coeff as int).is_zero()) by {
        vstd::arithmetic::div_mod::lemma_div_of0(SCALE as int);
    };
    lemma_avoid_sum_zero(pos, obstacles, s, obstacles.len() as int);
}

/// The field-of-view boundary is sharp: with the agent moving and the
/// neighbor at a positive distance, a neighbor whose (squared) angular test
/// lands exactly on the cone boundary is seen, and one whose test falls
/// strictly past it is not.
pub proof fn lemma_fov_boundary(pos: Vm, vel: Vm, other: Vm, cos_milli: int)
    requires
        0 <= cos_milli,
        vel.nsq() > 0,
        other.vsub(pos).nsq() > 0,
    ensures
        ({
            let d = other.vsub(pos);
            let dot = vel.vdot(d);
            let threshold = ((cos_milli * cos_milli) * vel.nsq()) * d.nsq();
            &&& (dot >= 0 && (dot * dot) * 1_000_000 == threshold ==> in_field_of_view(
                pos,
                vel,
                other,
                cos_milli,
            ))
            &&& (dot < 0 || (dot * dot) * 1_000_000 < threshold ==> !in_field_of_view(
                pos,
                vel,
                other,
                cos_milli,
            ))
        }),
{
}

/// Separation banding: a visible neighbor at a distance strictly between
/// the separation and alignment ranges contributes to the alignment band,
/// and — the bands being the disjoint images of one function — to neither
/// separation nor cohesion.
pub proof fn lemma_separation_banding(agents: Seq<Agent>, i: int, j: int, s: BoidSettings)
    requires
        0 <= i < agents.len(),
        0 <= j < agents.len(),
        j != i,
        in_field_of_view(
            agents[i].position@,
            agents[i].velocity.velocity@,
            agents[j].position@,
            s.field_of_view_cos as int,
        ),
        s.separation_range < neighbor_dist(agents, i, j) < s.alignment_range,
    ensures
        neighbor_band(agents, i, j, s) == Band::Alignment,
        neighbor_band(agents, i, j, s) != Band::Separation,
        neighbor_band(agents, i, j, s) != Band::Cohesion,
{
}

} // verus!
