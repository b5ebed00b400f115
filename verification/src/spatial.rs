//! Spatial index: answers "all agents within radius `r` of point `p`"
//! queries against the positions committed at the last refresh.
//!
//! The index is refreshed once per tick, before any query, so rule
//! evaluation always sees the previous tick's committed positions: updates
//! made later in the tick are invisible until the next refresh.

use vstd::prelude::*;
use crate::vec3::{V3, Vm};
use crate::agent::Agent;
use crate::COORD_LIM;

verus! {

/// Whether `q` lies within `radius` of `p` (by squared distance, which is
/// exact: no square root is taken).
pub open spec fn within_radius(q: Vm, p: Vm, radius: int) -> bool {
    q.vsub(p).nsq() <= radius * radius
}

/// The identifiers of the first `n` positions lying within `radius` of `p`,
/// in increasing order.
pub open spec fn within_ids(positions: Seq<Vm>, p: Vm, radius: int, n: int) -> Seq<usize>
    recommends
        0 <= n <= positions.len(),
    decreases n,
{
    if n <= 0 {
        Seq::empty()
    } else {
        let pre = within_ids(positions, p, radius, n - 1);
        if within_radius(positions[n - 1], p, radius) {
            pre.push((n - 1) as usize)
        } else {
            pre
        }
    }
}

/// Membership in the query result is exactly the within-radius condition.
pub proof fn lemma_within_ids_complete(positions: Seq<Vm>, p: Vm, radius: int, n: int, j: int)
    requires
        0 <= j < n <= positions.len(),
        n <= usize::MAX,
    ensures
        within_ids(positions, p, radius, n).contains(j as usize) <==> within_radius(
            positions[j],
            p,
            radius,
        ),
    decreases n,
{
    let ids = within_ids(positions, p, radius, n);
    let pre = within_ids(positions, p, radius, n - 1);
    lemma_within_ids_members(positions, p, radius, n - 1);
    if j == n - 1 {
        if within_radius(positions[j], p, radius) {
            assert(ids == pre.push((n - 1) as usize));
            assert(ids[pre.len() as int] == j as usize);
            assert(ids.contains(j as usize));
        } else {
            assert(ids == pre);
            if ids.contains(j as usize) {
                let k = choose|k: int| 0 <= k < ids.len() && ids[k] == j as usize;
                assert(pre[k] < n - 1);
            }
        }
    } else {
        lemma_within_ids_complete(positions, p, radius, n - 1, j);
        if within_radius(positions[n - 1], p, radius) {
            assert(ids == pre.push((n - 1) as usize));
            if pre.contains(j as usize) {
                let k = choose|k: int| 0 <= k < pre.len() && pre[k] == j as usize;
                assert(ids[k] == j as usize);
                assert(ids.contains(j as usize));
            }
            if ids.contains(j as usize) {
                let k = choose|k: int| 0 <= k < ids.len() && ids[k] == j as usize;
                if k < pre.len() {
                    assert(pre[k] == j as usize);
                    assert(pre.contains(j as usize));
                } else {
                    assert(ids[k] == (n - 1) as usize);
                }
            }
        } else {
            assert(ids == pre);
        }
    }
}

/// Every returned identifier is below `n`, and they increase strictly.
pub proof fn lemma_within_ids_members(positions: Seq<Vm>, p: Vm, radius: int, n: int)
    requires
        0 <= n <= positions.len(),
        n <= usize::MAX,
    ensures
        forall|k: int|
            0 <= k < within_ids(positions, p, radius, n).len() ==> (#[trigger] within_ids(
                positions,
                p,
                radius,
                n,
            )[k]) < n,
        forall|k1: int, k2: int|
            0 <= k1 < k2 < within_ids(positions, p, radius, n).len() ==> within_ids(
                positions,
                p,
                radius,
                n,
            )[k1] < within_ids(positions, p, radius, n)[k2],
        within_ids(positions, p, radius, n).len() <= n,
    decreases n,
{
    if n > 0 {
        lemma_within_ids_members(positions, p, radius, n - 1);
        let pre = within_ids(positions, p, radius, n - 1);
        let ids = within_ids(positions, p, radius, n);
        if within_radius(positions[n - 1], p, radius) {
            assert(ids == pre.push((n - 1) as usize));
            assert forall|k: int| 0 <= k < ids.len() implies ids[k] < n by {
                if k < pre.len() {
                    assert(ids[k] == pre[k]);
                } else {
                    assert(ids[k] == (n - 1) as usize);
                }
            }
            assert forall|k1: int, k2: int| 0 <= k1 < k2 < ids.len() implies ids[k1]
                < ids[k2] by {
                if k2 < pre.len() {
                    assert(ids[k1] == pre[k1] && ids[k2] == pre[k2]);
                } else {
                    assert(ids[k2] == (n - 1) as usize);
                    assert(ids[k1] == pre[k1] < n - 1);
                }
            }
        } else {
            assert(ids == pre);
        }
    }
}

/// The spatial index: a snapshot of all agent positions.
pub struct SpatialIndex {
    positions: Vec<V3>,
}

impl SpatialIndex {
    /// The committed position snapshot, as mathematical vectors.
    pub closed spec fn view(self) -> Seq<Vm> {
        self.positions@.map(|k: int, q: V3| q@)
    }

    pub closed spec fn wf(self) -> bool {
        forall|k: int| 0 <= k < self@.len() ==> (#[trigger] self@[k]).bounded(COORD_LIM as int)
    }

    pub fn new() -> (r: SpatialIndex)
        ensures
            r@.len() == 0,
            r.wf(),
    {
        SpatialIndex { positions: Vec::new() }
    }

    /// Rebuild the index from the agents' current positions.
    pub fn refresh(&mut self, agents: &Vec<Agent>)
        requires
            forall|k: int| 0 <= k < agents@.len() ==> (#[trigger] agents@[k]).wf(),
        ensures
            final(self)@.len() == agents@.len(),
            forall|k: int| 0 <= k < agents@.len() ==> final(self)@[k] == agents@[k].position@,
            final(self).wf(),
    {
        let mut positions: Vec<V3> = Vec::new();
        let mut k: usize = 0;
        while k < agents.len()
            invariant
                k <= agents@.len(),
                positions@.len() == k,
                forall|j: int| 0 <= j < k ==> positions@[j] == agents@[j].position,
                forall|j: int| 0 <= j < agents@.len() ==> (#[trigger] agents@[j]).wf(),
            decreases agents@.len() - k,
        {
            positions.push(agents[k].position);
            k += 1;
        }
        self.positions = positions;
        proof {
            assert forall|j: int| 0 <= j < agents@.len() implies self@[j]
                == agents@[j].position@ by {}
        }
    }

    /// All indexed agents whose position lies within `radius` of `point`,
    /// in increasing order of identifier. Callers filter self-matches.
    pub fn query_within(&self, point: V3, radius: i64) -> (r: Vec<usize>)
        requires
            self.wf(),
            point@.bounded(COORD_LIM as int),
            0 <= radius <= COORD_LIM,
        ensures
            r@ == within_ids(self@, point@, radius as int, self@.len() as int),
    {
        let mut r: Vec<usize> = Vec::new();
        let mut k: usize = 0;
        proof {
            crate::math::lemma_mul_bound(radius as int, radius as int, COORD_LIM as int, COORD_LIM as int);
        }
        let rad_sq: i128 = (radius as i128) * (radius as i128);
        while k < self.positions.len()
            invariant
                self.wf(),
                point@.bounded(COORD_LIM as int),
                0 <= radius <= COORD_LIM,
                rad_sq == (radius as int) * (radius as int),
                k <= self@.len(),
                r@ == within_ids(self@, point@, radius as int, k as int),
            decreases self@.len() - k,
        {
            let q = self.positions[k];
            assert(q@ == self@[k as int]);
            let d = q.sub(point);
            let dsq: i128 = d.nsq_wide();
            if dsq <= rad_sq {
                r.push(k);
            }
            k += 1;
        }
        r
    }

    /// Number of indexed positions.
    pub fn len(&self) -> (r: usize)
        ensures
            r == self@.len(),
    {
        self.positions.len()
    }
}

} // verus!
