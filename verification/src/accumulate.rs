//! Force accumulator: folds the force events of one tick into each agent's
//! pending acceleration. Addition of force vectors is associative and
//! commutative, so the order in which events arrive never affects the
//! result; that law is proved here.

use vstd::prelude::*;
use crate::vec3::{V3, Vm};
use crate::agent::{Agent, ApplyForceEvent, Velocity, Acceleration};
use crate::{FORCE_LIM, AGENT_LIM};

verus! {

/// Sum of the forces among the first `k` events that target agent `a`.
pub open spec fn events_sum(events: Seq<ApplyForceEvent>, a: int, k: int) -> Vm
    recommends
        0 <= k <= events.len(),
    decreases k,
{
    if k <= 0 {
        Vm { x: 0, y: 0, z: 0 }
    } else {
        let pre = events_sum(events, a, k - 1);
        if events[k - 1].agent == a {
            pre.vadd(events[k - 1].force@)
        } else {
            pre
        }
    }
}

/// Sum of all event forces that target agent `a`.
pub open spec fn events_total(events: Seq<ApplyForceEvent>, a: int) -> Vm {
    events_sum(events, a, events.len() as int)
}

/// The sum over a prefix only reads that prefix.
proof fn lemma_events_sum_prefix_agree(
    s1: Seq<ApplyForceEvent>,
    s2: Seq<ApplyForceEvent>,
    a: int,
    k: int,
)
    requires
        0 <= k <= s1.len(),
        k <= s2.len(),
        forall|t: int| 0 <= t < k ==> s1[t] == s2[t],
    ensures
        events_sum(s1, a, k) == events_sum(s2, a, k),
    decreases k,
{
    if k > 0 {
        lemma_events_sum_prefix_agree(s1, s2, a, k - 1);
    }
}

/// Taking one event out of the sequence takes exactly its contribution out
/// of the sum.
proof fn lemma_events_sum_remove(events: Seq<ApplyForceEvent>, a: int, idx: int)
    requires
        0 <= idx < events.len(),
    ensures
        events_total(events, a) == events_total(events.remove(idx), a).vadd(
            if events[idx].agent == a {
                events[idx].force@
            } else {
                Vm { x: 0, y: 0, z: 0 }
            },
        ),
    decreases events.len(),
{
    let n = events.len() as int;
    let c = if events[idx].agent == a {
        events[idx].force@
    } else {
        Vm { x: 0, y: 0, z: 0 }
    };
    let removed = events.remove(idx);
    if idx == n - 1 {
        lemma_events_sum_prefix_agree(removed, events, a, n - 1);
        assert(events_total(events, a) == events_sum(events, a, n - 1).vadd(c) || (events[idx].agent
            != a && events_total(events, a) == events_sum(events, a, n - 1)));
        assert(events_total(events, a) == events_sum(events, a, n - 1).vadd(c));
    } else {
        let prefix = events.take(n - 1);
        assert(prefix.len() == n - 1);
        assert(forall|t: int| 0 <= t < n - 1 ==> prefix[t] == events[t]);
        lemma_events_sum_prefix_agree(prefix, events, a, n - 1);
        lemma_events_sum_remove(prefix, a, idx);
        assert(prefix.remove(idx) =~= removed.take(n - 2));
        lemma_events_sum_prefix_agree(prefix.remove(idx), removed, a, n - 2);
        assert(removed[n - 2] == events[n - 1]);
        assert(events_total(removed, a) == events_sum(removed, a, n - 2).vadd(
            if events[n - 1].agent == a {
                events[n - 1].force@
            } else {
                Vm { x: 0, y: 0, z: 0 }
            },
        ) || (events[n - 1].agent != a && events_total(removed, a) == events_sum(
            removed,
            a,
            n - 2,
        )));
        assert(events_total(events, a) == events_sum(events, a, n - 1).vadd(
            if events[n - 1].agent == a {
                events[n - 1].force@
            } else {
                Vm { x: 0, y: 0, z: 0 }
            },
        ) || (events[n - 1].agent != a && events_total(events, a) == events_sum(
            events,
            a,
            n - 1,
        )));
    }
}

/// Accumulating the same multiset of force events, in any order, yields the
/// same total force for every agent: event arrival order never matters.
pub proof fn lemma_accumulation_order_independent(
    e1: Seq<ApplyForceEvent>,
    e2: Seq<ApplyForceEvent>,
    a: int,
)
    requires
        e1.to_multiset() == e2.to_multiset(),
    ensures
        events_total(e1, a) == events_total(e2, a),
    decreases e1.len(),
{
    broadcast use vstd::seq_lib::group_to_multiset_ensures;

    assert(e1.to_multiset().len() == e1.len());
    assert(e2.to_multiset().len() == e2.len());
    assert(e1.len() == e2.len());
    if e1.len() > 0 {
        let n = e1.len() as int;
        let x = e1[n - 1];
        assert(e1.contains(x));
        assert(e2.to_multiset().count(x) > 0);
        assert(e2.contains(x));
        let idx = choose|idx: int| 0 <= idx < e2.len() && e2[idx] == x;
        let e1p = e1.remove(n - 1);
        let e2p = e2.remove(idx);
        assert(e1p.to_multiset() =~= e1.to_multiset().remove(x));
        assert(e2p.to_multiset() =~= e2.to_multiset().remove(x));
        lemma_accumulation_order_independent(e1p, e2p, a);
        lemma_events_sum_remove(e1, a, n - 1);
        lemma_events_sum_remove(e2, a, idx);
    }
}

/// When the first `k` events target agents `0, 1, 2, ...` in order, the sum
/// for agent `a` is that agent's single event force.
proof fn lemma_events_sum_identity(events: Seq<ApplyForceEvent>, a: int, k: int)
    requires
        0 <= k <= events.len(),
        forall|t: int| 0 <= t < events.len() ==> (#[trigger] events[t]).agent == t,
    ensures
        events_sum(events, a, k) == if 0 <= a < k {
            events[a].force@
        } else {
            Vm { x: 0, y: 0, z: 0 }
        },
    decreases k,
{
    if k > 0 {
        lemma_events_sum_identity(events, a, k - 1);
    }
}

/// A pass that emits exactly one event per agent, in agent order,
/// contributes exactly that event's force to each agent.
pub proof fn lemma_events_total_one_per_agent(events: Seq<ApplyForceEvent>, a: int)
    requires
        forall|t: int| 0 <= t < events.len() ==> (#[trigger] events[t]).agent == t,
    ensures
        events_total(events, a) == if 0 <= a < events.len() {
            events[a].force@
        } else {
            Vm { x: 0, y: 0, z: 0 }
        },
{
    lemma_events_sum_identity(events, a, events.len() as int);
}

/// Fold every pending force event into the targeted agent's acceleration.
/// An event naming an agent that does not exist is dropped silently.
pub fn apply_forces(agents: &mut Vec<Agent>, events: &Vec<ApplyForceEvent>)
    requires
        old(agents)@.len() <= AGENT_LIM,
        events@.len() <= 2 * AGENT_LIM,
        forall|t: int| 0 <= t < events@.len() ==> (#[trigger] events@[t]).wf(),
        forall|t: int|
            0 <= t < old(agents)@.len() ==> (#[trigger] old(
                agents,
            )@[t]).acceleration.acceleration@.bounded(200_000_000_000_000_000),
    ensures
        final(agents)@.len() == old(agents)@.len(),
        forall|t: int|
            0 <= t < old(agents)@.len() ==> {
                let a = old(agents)@[t];
                let b = #[trigger] final(agents)@[t];
                &&& b.acceleration.acceleration@ == a.acceleration.acceleration@.vadd(
                    events_total(events@, t),
                )
                &&& b.acceleration.acceleration@.bounded(crate::ACCEL_LIM as int)
                &&& b.position == a.position
                &&& b.velocity == a.velocity
                &&& b.heading == a.heading
                &&& b.boid == a.boid
            },
{
    let n = events.len();
    let mut k: usize = 0;
    while k < n
        invariant
            n == events@.len() <= 2 * AGENT_LIM,
            agents@.len() == old(agents)@.len() <= AGENT_LIM,
            forall|t: int| 0 <= t < n ==> (#[trigger] events@[t]).wf(),
            k <= n,
            forall|t: int|
                0 <= t < agents@.len() ==> {
                    let a = old(agents)@[t];
                    let b = #[trigger] agents@[t];
                    &&& b.acceleration.acceleration@ == a.acceleration.acceleration@.vadd(
                        events_sum(events@, t, k as int),
                    )
                    &&& a.acceleration.acceleration@.bounded(200_000_000_000_000_000)
                    &&& b.acceleration.acceleration@.bounded(
                        200_000_000_000_000_000 + k as int * FORCE_LIM as int,
                    )
                    &&& b.position == a.position
                    &&& b.velocity == a.velocity
                    &&& b.heading == a.heading
                    &&& b.boid == a.boid
                },
        decreases n - k,
    {
        let ev = events[k];
        proof {
            assert((k as int + 1) * FORCE_LIM as int == k as int * FORCE_LIM as int
                + FORCE_LIM as int) by (nonlinear_arith);
        }
        if ev.agent < agents.len() {
            let a = agents[ev.agent];
            let acc = a.acceleration.acceleration.add(ev.force);
            agents[ev.agent] = Agent {
                position: a.position,
                velocity: a.velocity,
                acceleration: Acceleration { acceleration: acc },
                heading: a.heading,
                boid: a.boid,
            };
            proof {
                assert forall|t: int| 0 <= t < agents@.len() implies #[trigger] agents@[t]
                    .acceleration.acceleration@ == old(agents)@[t].acceleration.acceleration@.vadd(
                    events_sum(events@, t, k as int + 1),
                ) by {
                    if t == ev.agent {
                    } else {
                        assert(events_sum(events@, t, k as int + 1) == events_sum(
                            events@,
                            t,
                            k as int,
                        ));
                    }
                }
            }
        } else {
            proof {
                assert forall|t: int| 0 <= t < agents@.len() implies events_sum(
                    events@,
                    t,
                    k as int + 1,
                ) == events_sum(events@, t, k as int) by {}
            }
        }
        k += 1;
    }
    proof {
        assert forall|t: int| 0 <= t < agents@.len() implies (#[trigger] agents@[t])
            .acceleration.acceleration@.bounded(crate::ACCEL_LIM as int) by {
            assert(200_000_000_000_000_000 + k as int * FORCE_LIM as int <= crate::ACCEL_LIM as int)
                by (nonlinear_arith)
                requires
                    k <= 200_000,
                    FORCE_LIM == 1_000_000_000_000i64,
                    crate::ACCEL_LIM == 400_000_000_000_000_000i64,
            ;
        }
    }
}

} // verus!
