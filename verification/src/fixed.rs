//! Fixed-point scalars.
//!
//! Lengths, speeds and weights are whole numbers of millionths: one pixel is
//! `SCALE` units of length, one pixel per second is `SCALE` units of speed, and
//! the factor one is `SCALE`. Sums and differences are exact; a quotient is
//! rounded toward zero.

use vstd::prelude::*;

verus! {

/// Units in one pixel, and the fixed-point representation of the factor one.
pub const SCALE: i64 = 1_000_000;

/// A length of whole pixels, in units.
pub fn units(pixels: u32) -> (u: i64)
    ensures
        u == pixels * SCALE,
        0 <= u <= 4_294_967_295_000_000,
{
    proof {
        lemma_units_bound(pixels);
    }
    pixels as i64 * SCALE
}

/// A length of whole pixels is at most 4 294 967 295 000 000 units.
pub proof fn lemma_units_bound(pixels: u32)
    ensures
        0 <= pixels * SCALE <= 4_294_967_295_000_000,
{
    assert(pixels * SCALE == pixels * 1_000_000);
}

/// The quotient of `a` by a positive `b`, rounded toward zero.
pub open spec fn quot(a: int, b: int) -> int {
    if a >= 0 {
        a / b
    } else {
        -((-a) / b)
    }
}

/// `value` multiplied by the fixed-point factor `weight`.
pub open spec fn weighted(value: int, weight: int) -> int {
    quot(value * weight, SCALE as int)
}

/// `v` clipped to the interval from `-limit` to `limit`.
pub open spec fn clamp(v: int, limit: int) -> int {
    if v > limit {
        limit
    } else if v < -limit {
        -limit
    } else {
        v
    }
}

/// A coordinate brought back by one span `dim` when it has left `0 ..= dim`.
///
/// This is a single shift, not a remainder: a coordinate further out than one
/// span stays outside.
pub open spec fn wrap(c: int, dim: int) -> int {
    if c > dim {
        c - dim
    } else if c < 0 {
        c + dim
    } else {
        c
    }
}

/// `r` is the square root of `n`, rounded down.
pub open spec fn is_floor_sqrt(n: int, r: int) -> bool {
    0 <= r && r * r <= n < (r + 1) * (r + 1)
}

/// A number has at most one rounded-down square root.
pub proof fn lemma_floor_sqrt_unique(n: int, r: int, s: int)
    requires
        is_floor_sqrt(n, r),
        is_floor_sqrt(n, s),
    ensures
        r == s,
{
    if r < s {
        assert((r + 1) * (r + 1) <= s * s) by (nonlinear_arith)
            requires
                0 <= r + 1 <= s,
        ;
    } else if s < r {
        assert((s + 1) * (s + 1) <= r * r) by (nonlinear_arith)
            requires
                0 <= s + 1 <= r,
        ;
    }
}

/// Comparing a rounded-down square root with a whole bound is comparing the
/// number itself with the bound's square; the root is zero only for zero.
pub proof fn lemma_floor_sqrt_order(n: int, r: int, bound: int)
    requires
        is_floor_sqrt(n, r),
        0 <= bound,
    ensures
        r < bound <==> n < bound * bound,
        0 < r <==> 0 < n,
{
    if r < bound {
        assert((r + 1) * (r + 1) <= bound * bound) by (nonlinear_arith)
            requires
                0 <= r + 1 <= bound,
        ;
    } else {
        assert(bound * bound <= r * r) by (nonlinear_arith)
            requires
                0 <= bound <= r,
        ;
    }
    if 0 < r {
        assert(1 <= r * r) by (nonlinear_arith)
            requires
                1 <= r,
        ;
    } else {
        assert((r + 1) * (r + 1) == 1) by (nonlinear_arith)
            requires
                r == 0,
        ;
    }
}

/// Dividing by a positive number, rounding toward zero, never increases the
/// magnitude and keeps the order.
pub proof fn lemma_quot_bounds(a: int, b: int, limit: int)
    requires
        0 < b,
        -limit <= a <= limit,
    ensures
        -quot(limit, b) <= quot(a, b) <= quot(limit, b),
        -limit <= quot(a, b) <= limit,
{
    assert(0 <= limit);
    assert(0 <= limit / b <= limit) by (nonlinear_arith)
        requires
            0 <= limit,
            0 < b,
    ;
    if a >= 0 {
        assert(0 <= a / b <= limit / b) by (nonlinear_arith)
            requires
                0 <= a <= limit,
                0 < b,
        ;
    } else {
        assert(0 <= (-a) / b <= limit / b) by (nonlinear_arith)
            requires
                0 <= -a <= limit,
                0 < b,
        ;
    }
}

/// The square root of `n`, rounded down.
pub fn isqrt(n: u128) -> (r: u64)
    ensures
        is_floor_sqrt(n as int, r as int),
{
    let mut lo: u128 = 0;
    let mut hi: u128 = 0x1_0000_0000_0000_0000;
    while hi - lo > 1
        invariant
            lo < hi <= 0x1_0000_0000_0000_0000,
            lo * lo <= n,
            n < hi * hi,
        decreases hi - lo,
    {
        let mid: u128 = lo + (hi - lo) / 2;
        assert(mid * mid <= 0xFFFF_FFFF_FFFF_FFFF * 0xFFFF_FFFF_FFFF_FFFF) by (nonlinear_arith)
            requires
                0 <= mid <= 0xFFFF_FFFF_FFFF_FFFF,
        ;
        if mid * mid <= n {
            lo = mid;
        } else {
            hi = mid;
        }
    }
    lo as u64
}

} // verus!
