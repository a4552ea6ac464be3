//! Fixed-point scalars.
//!
//! Every scalar of the arena is a whole number of millionths: a coordinate
//! counts millionths of a world unit, a duration counts microseconds, a speed
//! counts millionths of a world unit per second, and a capture progress of
//! `1.0` is written `ONE`.

use vstd::prelude::*;

verus! {

/// How many millionths make one whole (one world unit, one second).
pub const ONE: i32 = 1_000_000;

/// The quotient of `n` by a positive `d`, rounded toward zero.
pub open spec fn div_trunc(n: int, d: int) -> int {
    if n >= 0 {
        n / d
    } else {
        -((-n) / d)
    }
}

/// `v` held between `lo` and `hi`.
pub open spec fn clamp(v: int, lo: int, hi: int) -> int {
    if v < lo {
        lo
    } else if v > hi {
        hi
    } else {
        v
    }
}

/// Rounding toward zero never moves a quotient away from zero, never past
/// the exact ratio, and keeps the sign of the dividend.
pub proof fn lemma_div_trunc_bounds(n: int, d: int)
    requires
        d > 0,
    ensures
        n >= 0 ==> 0 <= div_trunc(n, d) && div_trunc(n, d) * d <= n < (div_trunc(n, d) + 1) * d,
        n <= 0 ==> div_trunc(n, d) <= 0 && (div_trunc(n, d) - 1) * d < n <= div_trunc(n, d) * d,
        div_trunc(-n, d) == -div_trunc(n, d),
{
    let m = if n >= 0 { n } else { -n };
    let q = m / d;
    assert(0 <= q && q * d <= m < (q + 1) * d) by (nonlinear_arith)
        requires
            d > 0,
            m >= 0,
            q == m / d,
    ;
    if n < 0 {
        assert((-q - 1) * d == -((q + 1) * d)) by (nonlinear_arith);
        assert((-q) * d == -(q * d)) by (nonlinear_arith);
    }
    if n == 0 {
        assert(0int / d == 0) by (nonlinear_arith)
            requires
                d > 0,
        ;
        assert((0 - 1) * d < 0) by (nonlinear_arith)
            requires
                d > 0,
        ;
    }
}

/// The quotient of `n` by `d`, rounded toward zero.
pub fn quotient(n: i128, d: u64) -> (q: i128)
    requires
        d > 0,
    ensures
        q == div_trunc(n as int, d as int),
{
    proof {
        lemma_div_trunc_bounds(n as int, d as int);
    }
    n / (d as i128)
}

/// `v` held between the least and the greatest `i32`.
pub fn clamp_to_i32(v: i128) -> (r: i32)
    ensures
        r == clamp(v as int, i32::MIN as int, i32::MAX as int),
{
    if v < i32::MIN as i128 {
        i32::MIN
    } else if v > i32::MAX as i128 {
        i32::MAX
    } else {
        v as i32
    }
}

} // verus!
