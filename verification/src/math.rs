//! Scalar fixed-point arithmetic: truncating division and integer square
//! root, with the bound lemmas the vector operations build on.

use vstd::prelude::*;
use crate::div_tz;

verus! {

/// Integer square root: the largest `r` with `r * r <= n`.
pub open spec fn isqrt(n: nat) -> nat
    decreases n,
{
    if n == 0 {
        0
    } else {
        let r = isqrt((n - 1) as nat);
        if (r + 1) * (r + 1) <= n {
            (r + 1) as nat
        } else {
            r
        }
    }
}

/// `isqrt(n)` is the floor of the real square root of `n`.
pub proof fn lemma_isqrt_bounds(n: nat)
    ensures
        isqrt(n) * isqrt(n) <= n,
        n < (isqrt(n) + 1) * (isqrt(n) + 1),
    decreases n,
{
    if n == 0 {
        assert(isqrt(0) == 0);
        assert(isqrt(n) * isqrt(n) <= n);
        assert((isqrt(n) + 1) * (isqrt(n) + 1) == 1) by (nonlinear_arith)
            requires
                isqrt(n) == 0,
        ;
    } else {
        lemma_isqrt_bounds((n - 1) as nat);
        let r = isqrt((n - 1) as nat);
        if (r + 1) * (r + 1) <= n {
            assert(isqrt(n) == r + 1);
            assert(n <= (r + 1) * (r + 1)) by (nonlinear_arith)
                requires
                    n - 1 < (r + 1) * (r + 1),
            ;
            assert((r + 1) * (r + 1) < (r + 2) * (r + 2)) by (nonlinear_arith);
            assert(n < (isqrt(n) + 1) * (isqrt(n) + 1));
        } else {
            assert(isqrt(n) == r);
            assert(r * r <= n - 1 <= n);
        }
    }
}

/// Any `r` squeezed between the two square bounds is the square root.
pub proof fn lemma_isqrt_unique(n: nat, r: nat)
    requires
        r * r <= n,
        n < (r + 1) * (r + 1),
    ensures
        r == isqrt(n),
{
    lemma_isqrt_bounds(n);
    let s = isqrt(n);
    if r < s {
        assert((r + 1) * (r + 1) <= s * s) by (nonlinear_arith)
            requires
                r + 1 <= s,
        ;
    } else if s < r {
        assert((s + 1) * (s + 1) <= r * r) by (nonlinear_arith)
            requires
                s + 1 <= r,
        ;
    }
}

/// Square roots of ordered arguments are ordered.
pub proof fn lemma_isqrt_ordered(m: nat, n: nat)
    requires
        m <= n,
    ensures
        isqrt(m) <= isqrt(n),
{
    lemma_isqrt_bounds(m);
    lemma_isqrt_bounds(n);
    let a = isqrt(m);
    let b = isqrt(n);
    if b < a {
        assert((b + 1) * (b + 1) <= a * a) by (nonlinear_arith)
            requires
                b + 1 <= a,
        ;
    }
}

/// The square root of a perfect square.
pub proof fn lemma_isqrt_square(m: nat)
    ensures
        isqrt(m * m) == m,
{
    assert(m * m < (m + 1) * (m + 1)) by (nonlinear_arith);
    lemma_isqrt_unique(m * m, m);
}

/// The square root is zero only at zero.
pub proof fn lemma_isqrt_pos(n: nat)
    requires
        n >= 1,
    ensures
        isqrt(n) >= 1,
{
    lemma_isqrt_bounds(n);
    if isqrt(n) == 0 {
        assert((isqrt(n) + 1) * (isqrt(n) + 1) == 1) by (nonlinear_arith)
            requires
                isqrt(n) == 0nat,
        ;
    }
}

/// A product of bounded factors is bounded.
pub proof fn lemma_mul_bound(x: int, y: int, a: int, b: int)
    by (nonlinear_arith)
    requires
        -a <= x <= a,
        -b <= y <= b,
        0 <= a,
        0 <= b,
    ensures
        -(a * b) <= x * y <= a * b,
{
}

/// Truncating division shrinks magnitudes: `|a / b| <= |a|` and, more
/// precisely, `|a / b| <= m` whenever `|a| <= m * b`.
pub proof fn lemma_div_tz_bound(a: int, b: int, m: int)
    requires
        b > 0,
        0 <= m,
        -(m * b) <= a <= m * b,
    ensures
        -m <= div_tz(a, b) <= m,
{
    if a >= 0 {
        vstd::arithmetic::div_mod::lemma_div_is_ordered(a, m * b, b);
        vstd::arithmetic::div_mod::lemma_div_by_multiple(m, b);
        vstd::arithmetic::div_mod::lemma_div_pos_is_pos(a, b);
    } else {
        vstd::arithmetic::div_mod::lemma_div_is_ordered(-a, m * b, b);
        vstd::arithmetic::div_mod::lemma_div_by_multiple(m, b);
        vstd::arithmetic::div_mod::lemma_div_pos_is_pos(-a, b);
    }
}

/// What truncating division returns, characterized by its remainder:
/// `b * div_tz(a, b)` lies within `b` of `a`, on `a`'s side of zero.
pub proof fn lemma_div_tz_fundamental(a: int, b: int)
    requires
        b > 0,
    ensures
        a >= 0 ==> a - b < b * div_tz(a, b) <= a,
        a < 0 ==> a <= b * div_tz(a, b) < a + b,
        a >= 0 ==> div_tz(a, b) >= 0,
        a <= 0 ==> div_tz(a, b) <= 0,
{
    if a >= 0 {
        vstd::arithmetic::div_mod::lemma_fundamental_div_mod(a, b);
        vstd::arithmetic::div_mod::lemma_mod_division_less_than_divisor(a, b);
        vstd::arithmetic::div_mod::lemma_div_pos_is_pos(a, b);
    } else {
        vstd::arithmetic::div_mod::lemma_fundamental_div_mod(-a, b);
        vstd::arithmetic::div_mod::lemma_mod_division_less_than_divisor(-a, b);
        vstd::arithmetic::div_mod::lemma_div_pos_is_pos(-a, b);
        assert(b * div_tz(a, b) == -(b * ((-a) / b))) by (nonlinear_arith)
            requires
                div_tz(a, b) == -((-a) / b),
        ;
    }
}

/// Truncating division by a positive divisor, on `i64` operands.
pub fn div_fix(a: i64, b: i64) -> (r: i64)
    requires
        b > 0,
        a > i64::MIN,
    ensures
        r as int == div_tz(a as int, b as int),
{
    if a >= 0 {
        ((a as u64) / (b as u64)) as i64
    } else {
        let neg: u64 = (-a) as u64;
        let q: u64 = neg / (b as u64);
        assert(q <= neg) by {
            vstd::arithmetic::div_mod::lemma_div_is_ordered(q as int, neg as int, b as int);
            vstd::arithmetic::div_mod::lemma_div_nonincreasing(neg as int, b as int);
        };
        -(q as i64)
    }
}

/// Truncating division by a positive divisor, on `i128` operands, with the
/// quotient known to fit back in `i64`.
pub fn div_fix_wide(a: i128, b: i128) -> (r: i128)
    requires
        b > 0,
        a > i128::MIN,
    ensures
        r as int == div_tz(a as int, b as int),
{
    if a >= 0 {
        ((a as u128) / (b as u128)) as i128
    } else {
        let neg: u128 = (-a) as u128;
        let q: u128 = neg / (b as u128);
        assert(q <= neg) by {
            vstd::arithmetic::div_mod::lemma_div_nonincreasing(neg as int, b as int);
        };
        -(q as i128)
    }
}

/// Integer square root of a `u128`, by bisection.
pub fn isqrt_u128(n: u128) -> (r: u128)
    ensures
        r as nat == isqrt(n as nat),
        r * r <= n,
{
    let mut lo: u128 = 0;
    let mut hi: u128 = 0x1_0000_0000_0000_0000;
    assert(n < hi * hi) by (nonlinear_arith)
        requires
            n <= u128::MAX,
            hi == 0x1_0000_0000_0000_0000u128,
    ;
    while lo + 1 < hi
        invariant
            lo < hi <= 0x1_0000_0000_0000_0000u128,
            lo * lo <= n,
            n < hi * hi,
        decreases hi - lo,
    {
        let mid: u128 = lo + (hi - lo) / 2;
        assert(lo < mid < hi);
        assert(mid * mid < u128::MAX) by (nonlinear_arith)
            requires
                mid < 0x1_0000_0000_0000_0000u128,
        ;
        if mid * mid <= n {
            lo = mid;
        } else {
            hi = mid;
        }
    }
    proof {
        lemma_isqrt_unique(n as nat, lo as nat);
    }
    lo
}

} // verus!
