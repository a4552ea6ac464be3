//! Plane geometry on an integer grid.
//!
//! A coordinate counts millionths of a world unit. Distances are compared by
//! their squares, which are exact. Where a way is divided by its length, the
//! length is taken a million times finer than the grid, so that the quotient
//! is good to the last step of the grid.

use vstd::prelude::*;

verus! {

/// A position, or a displacement, on the grid.
#[derive(Clone, Copy, Debug, PartialEq, Eq, Structural, Hash)]
pub struct Point {
    pub x: i32,
    pub y: i32,
}

/// The square of the distance between `a` and `b`.
pub open spec fn dist2(a: Point, b: Point) -> int {
    (a.x - b.x) * (a.x - b.x) + (a.y - b.y) * (a.y - b.y)
}

/// `r` is the floor of the square root of `n`.
pub open spec fn is_sqrt_floor(n: int, r: int) -> bool {
    0 <= r && r * r <= n && n < (r + 1) * (r + 1)
}

/// The floor of the square root of `n`, and 0 for a negative `n`.
pub open spec fn sqrt_floor(n: int) -> int {
    if n < 0 {
        0
    } else {
        choose|r: int| is_sqrt_floor(n, r)
    }
}

/// The length of the segment from `a` to `b` in millionths of a step of the
/// grid, rounded down.
pub open spec fn fine_length(a: Point, b: Point) -> int {
    sqrt_floor(dist2(a, b) * 1_000_000_000_000)
}

/// Squares grow with their base.
pub proof fn lemma_square_monotonic(a: int, b: int)
    requires
        0 <= a <= b,
    ensures
        a * a <= b * b,
{
    assert(a * a <= b * b) by (nonlinear_arith)
        requires
            0 <= a <= b,
    ;
}

/// At most one number is the floor square root of `n`.
pub proof fn lemma_sqrt_floor_unique(n: int, r: int, s: int)
    requires
        is_sqrt_floor(n, r),
        is_sqrt_floor(n, s),
    ensures
        r == s,
{
    if r < s {
        lemma_square_monotonic(r + 1, s);
    } else if s < r {
        lemma_square_monotonic(s + 1, r);
    }
}

/// Every natural number has a floor square root.
pub proof fn lemma_sqrt_floor_exists(n: int)
    requires
        0 <= n,
    ensures
        exists|r: int| is_sqrt_floor(n, r),
    decreases n,
{
    if n == 0 {
        assert(is_sqrt_floor(0, 0));
    } else {
        let m = n - 1;
        lemma_sqrt_floor_exists(m);
        let r = choose|r: int| is_sqrt_floor(m, r);
        if n < (r + 1) * (r + 1) {
            assert(is_sqrt_floor(n, r));
        } else {
            assert((r + 2) * (r + 2) == (r + 1) * (r + 1) + 2 * r + 3) by (nonlinear_arith);
            assert(is_sqrt_floor(n, r + 1));
        }
    }
}

/// Whoever exhibits a floor square root of `n` has found `sqrt_floor(n)`.
pub proof fn lemma_sqrt_floor_is(n: int, r: int)
    requires
        is_sqrt_floor(n, r),
    ensures
        sqrt_floor(n) == r,
{
    assert(0 <= r * r) by (nonlinear_arith);
    let s = choose|s: int| is_sqrt_floor(n, s);
    lemma_sqrt_floor_unique(n, r, s);
}

/// `sqrt_floor(n)` is the floor square root of every natural `n`.
pub proof fn lemma_sqrt_floor_spec(n: int)
    requires
        0 <= n,
    ensures
        is_sqrt_floor(n, sqrt_floor(n)),
{
    lemma_sqrt_floor_exists(n);
}

/// The squared distance is never negative and vanishes only between equal
/// points.
pub proof fn lemma_dist2_zero(a: Point, b: Point)
    ensures
        0 <= dist2(a, b),
        dist2(a, b) == 0 <==> a == b,
        dist2(a, b) == dist2(b, a),
{
    let dx = a.x - b.x;
    let dy = a.y - b.y;
    assert(0 <= dx * dx && 0 <= dy * dy) by (nonlinear_arith);
    assert(dx != 0 ==> dx * dx > 0) by (nonlinear_arith);
    assert(dy != 0 ==> dy * dy > 0) by (nonlinear_arith);
    assert((b.x - a.x) * (b.x - a.x) == dx * dx) by (nonlinear_arith)
        requires
            dx == a.x - b.x,
    ;
    assert((b.y - a.y) * (b.y - a.y) == dy * dy) by (nonlinear_arith)
        requires
            dy == a.y - b.y,
    ;
}

/// The fine length of a segment is zero exactly when its ends coincide, and
/// at least a million otherwise. No coordinate of the segment, taken a
/// million times, is longer than the fine length, and the fine length fits
/// 53 bits.
pub proof fn lemma_fine_length(a: Point, b: Point)
    ensures
        fine_length(a, b) == 0 <==> a == b,
        a != b ==> fine_length(a, b) >= 1_000_000,
        is_sqrt_floor(dist2(a, b) * 1_000_000_000_000, fine_length(a, b)),
        -fine_length(a, b) <= (b.x - a.x) * 1_000_000 <= fine_length(a, b),
        -fine_length(a, b) <= (b.y - a.y) * 1_000_000 <= fine_length(a, b),
        fine_length(a, b) < 0x20_0000_0000_0000,
{
    lemma_dist2_zero(a, b);
    let d = dist2(a, b);
    let n = d * 1_000_000_000_000;
    lemma_sqrt_floor_spec(n);
    let r = fine_length(a, b);
    let dx = b.x - a.x;
    let dy = b.y - a.y;
    assert(d == dx * dx + dy * dy) by (nonlinear_arith)
        requires
            dx == b.x - a.x,
            dy == b.y - a.y,
            d == (a.x - b.x) * (a.x - b.x) + (a.y - b.y) * (a.y - b.y),
    ;
    if a == b {
        lemma_sqrt_floor_is(0, 0);
    } else {
        assert(r >= 1_000_000) by (nonlinear_arith)
            requires
                d >= 1,
                n == d * 1_000_000_000_000,
                n < (r + 1) * (r + 1),
                r >= 0,
        ;
    }
    assert(-r <= dx * 1_000_000 <= r) by (nonlinear_arith)
        requires
            d == dx * dx + dy * dy,
            n == d * 1_000_000_000_000,
            n < (r + 1) * (r + 1),
            r >= 0,
    ;
    assert(-r <= dy * 1_000_000 <= r) by (nonlinear_arith)
        requires
            d == dx * dx + dy * dy,
            n == d * 1_000_000_000_000,
            n < (r + 1) * (r + 1),
            r >= 0,
    ;
    assert(dx * dx <= 0xffff_ffff * 0xffff_ffff) by (nonlinear_arith)
        requires
            -0xffff_ffff <= dx <= 0xffff_ffff,
    ;
    assert(dy * dy <= 0xffff_ffff * 0xffff_ffff) by (nonlinear_arith)
        requires
            -0xffff_ffff <= dy <= 0xffff_ffff,
    ;
    if r >= 0x20_0000_0000_0000 {
        lemma_square_monotonic(0x20_0000_0000_0000, r);
    }
}

impl Point {
    /// The point with the given coordinates.
    pub fn new(x: i32, y: i32) -> (p: Point)
        ensures
            p == (Point { x, y }),
    {
        Point { x, y }
    }

    /// The origin of the grid.
    pub fn zero() -> (p: Point)
        ensures
            p == (Point { x: 0, y: 0 }),
    {
        Point { x: 0, y: 0 }
    }

    /// The square of the distance from `self` to `other`.
    pub fn distance_squared(self, other: Point) -> (d: u128)
        ensures
            d == dist2(self, other),
    {
        let sx: u64 = span(self.x, other.x);
        let sy: u64 = span(self.y, other.y);
        proof {
            lemma_span_square(self.x, other.x, sx);
            lemma_span_square(self.y, other.y, sy);
        }
        (sx as u128) * (sx as u128) + (sy as u128) * (sy as u128)
    }

    /// The distance from `self` to `other` in millionths of a step of the
    /// grid, rounded down.
    pub fn fine_distance(self, other: Point) -> (d: u64)
        ensures
            d == fine_length(self, other),
    {
        proof {
            lemma_dist2_zero(self, other);
            lemma_dist_bound(self, other);
        }
        isqrt(self.distance_squared(other) * 1_000_000_000_000)
    }
}

/// The squared distance between two points of the grid fits 66 bits.
pub proof fn lemma_dist_bound(a: Point, b: Point)
    ensures
        dist2(a, b) <= 2 * (0xffff_ffff * 0xffff_ffff),
{
    let dx = a.x - b.x;
    let dy = a.y - b.y;
    assert(dx * dx <= 0xffff_ffff * 0xffff_ffff) by (nonlinear_arith)
        requires
            -0xffff_ffff <= dx <= 0xffff_ffff,
    ;
    assert(dy * dy <= 0xffff_ffff * 0xffff_ffff) by (nonlinear_arith)
        requires
            -0xffff_ffff <= dy <= 0xffff_ffff,
    ;
}

/// The gap between two coordinates.
fn span(a: i32, b: i32) -> (s: u64)
    ensures
        s == if a >= b {
            a - b
        } else {
            b - a
        },
        s <= 0xffff_ffff,
{
    let d: i64 = a as i64 - b as i64;
    if d >= 0 {
        d as u64
    } else {
        (0 - d) as u64
    }
}

proof fn lemma_span_square(a: i32, b: i32, s: u64)
    requires
        s == if a >= b {
            a - b
        } else {
            b - a
        },
    ensures
        s * s == (a - b) * (a - b),
        s * s <= 0xffff_ffff * 0xffff_ffff,
{
    let d = a - b;
    assert(s * s == d * d) by (nonlinear_arith)
        requires
            s == d || s == -d,
    ;
    assert(s * s <= 0xffff_ffff * 0xffff_ffff) by (nonlinear_arith)
        requires
            0 <= s <= 0xffff_ffff,
    ;
}

/// The floor of the square root of `n`.
pub fn isqrt(n: u128) -> (r: u64)
    ensures
        r == sqrt_floor(n as int),
        is_sqrt_floor(n as int, r as int),
{
    let mut lo: u128 = 0;
    let mut hi: u128 = 0x1_0000_0000_0000_0000;
    assert(lo * lo <= n) by (nonlinear_arith)
        requires
            lo == 0,
    ;
    assert(n < hi * hi) by (nonlinear_arith)
        requires
            hi == 0x1_0000_0000_0000_0000,
            n <= 0xffff_ffff_ffff_ffff_ffff_ffff_ffff_ffff,
    ;
    while hi - lo > 1
        invariant
            lo < hi <= 0x1_0000_0000_0000_0000,
            lo * lo <= n < hi * hi,
        decreases hi - lo,
    {
        let mid: u128 = lo + (hi - lo) / 2;
        assert(mid * mid <= 0xffff_ffff_ffff_ffff * 0xffff_ffff_ffff_ffff) by (nonlinear_arith)
            requires
                0 <= mid <= 0xffff_ffff_ffff_ffff,
        ;
        if mid * mid <= n {
            lo = mid;
        } else {
            hi = mid;
        }
    }
    proof {
        assert(hi == lo + 1);
        lemma_sqrt_floor_is(n as int, lo as int);
    }
    lo as u64
}

} // verus!
