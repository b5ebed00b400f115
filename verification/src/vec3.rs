//! 3D vectors in fixed-point coordinates, with their unbounded mathematical
//! view and the exact specifications of every vector operation the engine
//! performs.

use vstd::prelude::*;
use crate::div_tz;
use crate::math::{isqrt, lemma_mul_bound, lemma_div_tz_bound, lemma_isqrt_bounds, div_fix_wide, isqrt_u128};

verus! {

/// Mathematical view of a vector: unbounded integer components.
pub struct Vm {
    pub x: int,
    pub y: int,
    pub z: int,
}

impl Vm {
    pub open spec fn vadd(self, o: Vm) -> Vm {
        Vm { x: self.x + o.x, y: self.y + o.y, z: self.z + o.z }
    }

    pub open spec fn vsub(self, o: Vm) -> Vm {
        Vm { x: self.x - o.x, y: self.y - o.y, z: self.z - o.z }
    }

    /// Componentwise `c * m / d`, with truncating division: the one shape of
    /// scaling the engine uses (by a coefficient, by a timestep, down to a
    /// unit direction, or by a neighbor count).
    pub open spec fn vscale(self, m: int, d: int) -> Vm
        recommends
            d > 0,
    {
        Vm {
            x: div_tz(self.x * m, d),
            y: div_tz(self.y * m, d),
            z: div_tz(self.z * m, d),
        }
    }

    pub open spec fn vdot(self, o: Vm) -> int {
        self.x * o.x + self.y * o.y + self.z * o.z
    }

    /// Squared Euclidean norm.
    pub open spec fn nsq(self) -> int {
        self.vdot(self)
    }

    /// Fixed-point norm: the floor of the real Euclidean length.
    pub open spec fn norm(self) -> int {
        isqrt(self.nsq() as nat) as int
    }

    pub open spec fn bounded(self, m: int) -> bool {
        &&& -m <= self.x <= m
        &&& -m <= self.y <= m
        &&& -m <= self.z <= m
    }

    pub open spec fn is_zero(self) -> bool {
        self.x == 0 && self.y == 0 && self.z == 0
    }
}

/// A squared norm is never negative.
pub proof fn lemma_nsq_nonneg(v: Vm)
    ensures
        v.nsq() >= 0,
        v.is_zero() <==> v.nsq() == 0,
{
    lemma_mul_bound(v.x, v.x, if v.x >= 0 { v.x } else { -v.x }, if v.x >= 0 { v.x } else { -v.x });
    assert(v.x * v.x >= 0 && v.y * v.y >= 0 && v.z * v.z >= 0) by (nonlinear_arith);
    if v.nsq() == 0 {
        assert(v.x * v.x > 0 || v.x == 0) by (nonlinear_arith);
        assert(v.y * v.y > 0 || v.y == 0) by (nonlinear_arith);
        assert(v.z * v.z > 0 || v.z == 0) by (nonlinear_arith);
    }
}

/// A vector bounded by `m` has a squared norm at most `3 * m * m`.
pub proof fn lemma_nsq_bound(v: Vm, m: int)
    requires
        0 <= m,
        v.bounded(m),
    ensures
        0 <= v.nsq() <= 3 * (m * m),
{
    lemma_nsq_nonneg(v);
    lemma_mul_bound(v.x, v.x, m, m);
    lemma_mul_bound(v.y, v.y, m, m);
    lemma_mul_bound(v.z, v.z, m, m);
}

/// Sum of the first `k` vectors of a sequence.
pub open spec fn vsum_prefix(s: Seq<Vm>, k: int) -> Vm
    recommends
        0 <= k <= s.len(),
    decreases k,
{
    if k <= 0 {
        Vm { x: 0, y: 0, z: 0 }
    } else {
        vsum_prefix(s, k - 1).vadd(s[k - 1])
    }
}

/// No component exceeds the norm: `|v_i| <= |v|`.
pub proof fn lemma_comp_le_norm(v: Vm)
    ensures
        v.norm() >= 0,
        v.bounded(v.norm()),
{
    lemma_nsq_nonneg(v);
    lemma_isqrt_bounds(v.nsq() as nat);
    let d = v.norm();
    assert(v.x * v.x >= 0 && v.y * v.y >= 0 && v.z * v.z >= 0) by (nonlinear_arith);
    assert(-d <= v.x <= d) by (nonlinear_arith)
        requires
            v.x * v.x < (d + 1) * (d + 1),
            d >= 0,
    ;
    assert(-d <= v.y <= d) by (nonlinear_arith)
        requires
            v.y * v.y < (d + 1) * (d + 1),
            d >= 0,
    ;
    assert(-d <= v.z <= d) by (nonlinear_arith)
        requires
            v.z * v.z < (d + 1) * (d + 1),
            d >= 0,
    ;
}

/// The norm of a vector bounded by `m` is at most `2 * m` (the diagonal is
/// `sqrt(3) * m`, and `2` rounds that factor up).
pub proof fn lemma_norm_le(v: Vm, m: int)
    requires
        0 <= m,
        v.bounded(m),
    ensures
        0 <= v.norm() <= 2 * m,
{
    lemma_nsq_bound(v, m);
    lemma_isqrt_bounds(v.nsq() as nat);
    let d = v.norm();
    if d > 2 * m {
        assert(d * d > (2 * m) * (2 * m)) by (nonlinear_arith)
            requires
                d > 2 * m >= 0,
        ;
        assert((2 * m) * (2 * m) >= 3 * (m * m)) by (nonlinear_arith);
    }
}

/// A dot product of bounded vectors is bounded by three times the product
/// of the bounds.
pub proof fn lemma_vdot_bound(a: Vm, b: Vm, m1: int, m2: int)
    requires
        0 <= m1,
        0 <= m2,
        a.bounded(m1),
        b.bounded(m2),
    ensures
        -(3 * (m1 * m2)) <= a.vdot(b) <= 3 * (m1 * m2),
{
    lemma_mul_bound(a.x, b.x, m1, m2);
    lemma_mul_bound(a.y, b.y, m1, m2);
    lemma_mul_bound(a.z, b.z, m1, m2);
}

/// Scaling a vector by `m / d` with `|v_i| <= c * d` componentwise keeps
/// every component within `c * m` (truncating division only shrinks).
pub proof fn lemma_vscale_bound(v: Vm, m: int, d: int, c: int)
    requires
        d > 0,
        0 <= c,
        v.bounded(c * d),
    ensures
        v.vscale(m, d).bounded(c * (if m >= 0 { m } else { -m })),
{
    let am = if m >= 0 { m } else { -m };
    lemma_mul_bound(v.x, m, c * d, am);
    lemma_mul_bound(v.y, m, c * d, am);
    lemma_mul_bound(v.z, m, c * d, am);
    assert((c * d) * am == (c * am) * d) by (nonlinear_arith);
    lemma_div_tz_bound(v.x * m, d, c * am);
    lemma_div_tz_bound(v.y * m, d, c * am);
    lemma_div_tz_bound(v.z * m, d, c * am);
}

/// A 3D vector in fixed-point coordinates.
#[derive(Clone, Copy, PartialEq, Eq, Structural, Debug)]
pub struct V3 {
    pub x: i64,
    pub y: i64,
    pub z: i64,
}

impl View for V3 {
    type V = Vm;

    open spec fn view(&self) -> Vm {
        Vm { x: self.x as int, y: self.y as int, z: self.z as int }
    }
}

impl V3 {
    pub fn new(x: i64, y: i64, z: i64) -> (r: V3)
        ensures
            r@ == (Vm { x: x as int, y: y as int, z: z as int }),
    {
        V3 { x, y, z }
    }

    pub fn zero() -> (r: V3)
        ensures
            r@.is_zero(),
            r@ == (Vm { x: 0int, y: 0int, z: 0int }),
    {
        V3 { x: 0, y: 0, z: 0 }
    }

    pub fn add(self, o: V3) -> (r: V3)
        requires
            i64::MIN <= self@.x + o@.x <= i64::MAX,
            i64::MIN <= self@.y + o@.y <= i64::MAX,
            i64::MIN <= self@.z + o@.z <= i64::MAX,
        ensures
            r@ == self@.vadd(o@),
    {
        V3 { x: self.x + o.x, y: self.y + o.y, z: self.z + o.z }
    }

    pub fn sub(self, o: V3) -> (r: V3)
        requires
            i64::MIN <= self@.x - o@.x <= i64::MAX,
            i64::MIN <= self@.y - o@.y <= i64::MAX,
            i64::MIN <= self@.z - o@.z <= i64::MAX,
        ensures
            r@ == self@.vsub(o@),
    {
        V3 { x: self.x - o.x, y: self.y - o.y, z: self.z - o.z }
    }

    /// Componentwise `c * m / d` with truncating division.
    pub fn scale(self, m: i64, d: i64) -> (r: V3)
        requires
            d > 0,
            self@.vscale(m as int, d as int).bounded(i64::MAX as int),
        ensures
            r@ == self@.vscale(m as int, d as int),
    {
        proof {
            lemma_mul_bound(self@.x, m as int, 0x8000_0000_0000_0000, 0x8000_0000_0000_0000);
            lemma_mul_bound(self@.y, m as int, 0x8000_0000_0000_0000, 0x8000_0000_0000_0000);
            lemma_mul_bound(self@.z, m as int, 0x8000_0000_0000_0000, 0x8000_0000_0000_0000);
        }
        let px: i128 = (self.x as i128) * (m as i128);
        let py: i128 = (self.y as i128) * (m as i128);
        let pz: i128 = (self.z as i128) * (m as i128);
        let qx: i128 = div_fix_wide(px, d as i128);
        let qy: i128 = div_fix_wide(py, d as i128);
        let qz: i128 = div_fix_wide(pz, d as i128);
        V3 { x: qx as i64, y: qy as i64, z: qz as i64 }
    }

    /// Dot product, exact, in a wide integer.
    pub fn dot_wide(self, o: V3) -> (r: i128)
        requires
            self@.bounded(3_000_000_000),
            o@.bounded(3_000_000_000),
        ensures
            r as int == self@.vdot(o@),
    {
        proof {
            lemma_mul_bound(self@.x, o@.x, 3_000_000_000, 3_000_000_000);
            lemma_mul_bound(self@.y, o@.y, 3_000_000_000, 3_000_000_000);
            lemma_mul_bound(self@.z, o@.z, 3_000_000_000, 3_000_000_000);
        }
        (self.x as i128) * (o.x as i128) + (self.y as i128) * (o.y as i128) + (self.z as i128)
            * (o.z as i128)
    }

    /// Squared norm, exact, in a wide integer.
    pub fn nsq_wide(self) -> (r: i128)
        requires
            self@.bounded(4_100_000_000_000_000_000),
        ensures
            r as int == self@.nsq(),
            r >= 0,
    {
        proof {
            lemma_mul_bound(self@.x, self@.x, 4_100_000_000_000_000_000, 4_100_000_000_000_000_000);
            lemma_mul_bound(self@.y, self@.y, 4_100_000_000_000_000_000, 4_100_000_000_000_000_000);
            lemma_mul_bound(self@.z, self@.z, 4_100_000_000_000_000_000, 4_100_000_000_000_000_000);
            lemma_nsq_nonneg(self@);
        }
        (self.x as i128) * (self.x as i128) + (self.y as i128) * (self.y as i128) + (self.z as i128)
            * (self.z as i128)
    }

    /// Fixed-point Euclidean norm (floor of the real length).
    pub fn norm(self) -> (r: i64)
        requires
            self@.bounded(4_100_000_000_000_000_000),
        ensures
            r as int == self@.norm(),
            r >= 0,
            r * r <= self@.nsq(),
    {
        let n = self.nsq_wide();
        let s = isqrt_u128(n as u128);
        proof {
            lemma_isqrt_bounds(n as nat);
            assert(isqrt(n as nat) <= 7_200_000_000_000_000_000) by {
                let q = isqrt(n as nat);
                if q > 7_200_000_000_000_000_000 {
                    assert(q * q > 51_840_000_000_000_000_000_000_000_000_000_000_000)
                        by (nonlinear_arith)
                        requires
                            q > 7_200_000_000_000_000_000,
                    ;
                    lemma_nsq_bound(self@, 4_100_000_000_000_000_000);
                }
            };
        }
        s as i64
    }

    /// Fixed-point distance between two points.
    pub fn dist(self, o: V3) -> (r: i64)
        requires
            self@.bounded(2_000_000_000_000_000_000),
            o@.bounded(2_000_000_000_000_000_000),
        ensures
            r as int == self@.vsub(o@).norm(),
            r >= 0,
    {
        self.sub(o).norm()
    }
}

} // verus!
