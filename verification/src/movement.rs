//! Moving an agent toward a target.

use vstd::prelude::*;
use crate::fixed::{clamp, clamp_to_i32, div_trunc, lemma_div_trunc_bounds, quotient};
use crate::geometry::{fine_length, lemma_fine_length, Point};

verus! {

/// How far one coordinate moves in a step, before it is held on the grid:
/// the share `delta / length` of the way travelled at `speed` during `dt`,
/// rounded toward zero. `fine` is the length of the whole way in millionths
/// of a step of the grid.
pub open spec fn stride(delta: int, fine: int, speed: int, dt: int) -> int {
    div_trunc(delta * speed * dt, fine)
}

/// One coordinate after a step: `from` moved by its stride and held on the
/// grid.
pub open spec fn advanced(from: int, delta: int, fine: int, speed: int, dt: int) -> int {
    clamp(from + stride(delta, fine, speed, dt), i32::MIN as int, i32::MAX as int)
}

/// Where an agent at `position` stands after heading for `target` at `speed`
/// for `dt`: where it was if it stands on its target, else
/// `position + (target - position) / length * speed * dt`, each coordinate
/// rounded toward zero and held on the grid.
pub open spec fn stepped(position: Point, target: Point, speed: u32, dt: u32) -> Point {
    let fine = fine_length(position, target);
    if fine == 0 {
        position
    } else {
        Point {
            x: advanced(
                position.x as int,
                target.x - position.x,
                fine,
                speed as int,
                dt as int,
            ) as i32,
            y: advanced(
                position.y as int,
                target.y - position.y,
                fine,
                speed as int,
                dt as int,
            ) as i32,
        }
    }
}

/// An agent that stands on its target stays there, whatever its speed and
/// however long the step.
pub proof fn lemma_step_at_target(position: Point, speed: u32, dt: u32)
    ensures
        stepped(position, position, speed, dt) == position,
{
    lemma_fine_length(position, position);
}

/// An agent that does not move in time or has no speed stays where it is.
pub proof fn lemma_step_without_travel(position: Point, target: Point, speed: u32, dt: u32)
    requires
        speed == 0 || dt == 0,
    ensures
        stepped(position, target, speed, dt) == position,
{
    lemma_fine_length(position, target);
    let fine = fine_length(position, target);
    if fine != 0 {
        let dx = target.x - position.x;
        let dy = target.y - position.y;
        assert(dx * speed * dt == 0 && dy * speed * dt == 0) by (nonlinear_arith)
            requires
                speed == 0 || dt == 0,
        ;
        assert(0int / fine == 0) by (nonlinear_arith)
            requires
                fine > 0,
        ;
    }
}

/// How far a step can reach at most: the way travelled, `speed * dt` in
/// whole millionths, and one part of it in `fine`, the fine length of the
/// way to the target, and two for what the roundings can add.
pub open spec fn reach(fine: int, speed: int, dt: int) -> int {
    speed * dt / 1_000_000 + speed * dt / (1_000_000 * fine) + 2
}

/// A step is as long as the way travelled, whatever the speed and however
/// long the step: the square of its length is at most the square of its
/// `reach`. Where the step is no longer than a million times the way to the
/// target, the square of its length is at most the square of
/// `speed * dt / 1_000_000 + 2`.
pub proof fn lemma_step_length(position: Point, target: Point, speed: u32, dt: u32)
    requires
        position != target,
    ensures
        ({
            let fine = fine_length(position, target);
            let sx = stride(target.x - position.x, fine, speed as int, dt as int);
            let sy = stride(target.y - position.y, fine, speed as int, dt as int);
            let far = reach(fine, speed as int, dt as int);
            sx * sx + sy * sy <= far * far
        }),
        ({
            let moved = stepped(position, target, speed, dt);
            let far = reach(fine_length(position, target), speed as int, dt as int);
            (moved.x - position.x) * (moved.x - position.x) + (moved.y - position.y) * (moved.y
                - position.y) <= far * far
        }),
        speed * dt <= fine_length(position, target) * 1_000_000 ==> ({
            let fine = fine_length(position, target);
            let sx = stride(target.x - position.x, fine, speed as int, dt as int);
            let sy = stride(target.y - position.y, fine, speed as int, dt as int);
            let near = (speed * dt) / 1_000_000 + 2;
            sx * sx + sy * sy <= near * near
        }),
        speed * dt <= fine_length(position, target) * 1_000_000 ==> ({
            let moved = stepped(position, target, speed, dt);
            let near = (speed * dt) / 1_000_000 + 2;
            (moved.x - position.x) * (moved.x - position.x) + (moved.y - position.y) * (moved.y
                - position.y) <= near * near
        }),
{
    lemma_fine_length(position, target);
    let fine = fine_length(position, target);
    let t = speed * dt;
    let m = 1_000_000int;
    assert(0 <= t) by (nonlinear_arith)
        requires
            t == speed * dt,
            speed >= 0,
            dt >= 0,
    ;
    let whole = t / m;
    let part = t / (m * fine);
    assert(m * fine > 0) by (nonlinear_arith)
        requires
            m == 1_000_000,
            fine > 0,
    ;
    assert(t < (whole + 1) * m) by (nonlinear_arith)
        requires
            whole == t / m,
            m == 1_000_000,
            t >= 0,
    ;
    assert(t < (part + 1) * (m * fine)) by (nonlinear_arith)
        requires
            part == t / (m * fine),
            m * fine > 0,
            t >= 0,
    ;
    let far = reach(fine, speed as int, dt as int);
    assert(far == whole + part + 2);
    assert((fine + 1) * t < fine * (far * m)) by (nonlinear_arith)
        requires
            t < (whole + 1) * m,
            t < (part + 1) * (m * fine),
            far == whole + part + 2,
            fine > 0,
            m == 1_000_000,
    ;
    lemma_step_within(position, target, speed, dt, far);
    if t <= fine * m {
        let near = whole + 2;
        assert((fine + 1) * t < fine * (near * m)) by (nonlinear_arith)
            requires
                t <= fine * m,
                t < (near - 1) * m,
                fine > 0,
                t >= 0,
                m == 1_000_000,
        ;
        lemma_step_within(position, target, speed, dt, near);
    }
}

/// A step whose travel, stretched by one part in the fine length of the
/// way, stays below `far` wholes is less than `far` long.
proof fn lemma_step_within(position: Point, target: Point, speed: u32, dt: u32, far: int)
    requires
        position != target,
        (fine_length(position, target) + 1) * (speed * dt) < fine_length(position, target) * (far
            * 1_000_000),
    ensures
        ({
            let fine = fine_length(position, target);
            let sx = stride(target.x - position.x, fine, speed as int, dt as int);
            let sy = stride(target.y - position.y, fine, speed as int, dt as int);
            sx * sx + sy * sy <= far * far
        }),
        ({
            let moved = stepped(position, target, speed, dt);
            (moved.x - position.x) * (moved.x - position.x) + (moved.y - position.y) * (moved.y
                - position.y) <= far * far
        }),
{
    lemma_fine_length(position, target);
    let fine = fine_length(position, target);
    let dx = target.x - position.x;
    let dy = target.y - position.y;
    let t = speed * dt;
    let sx = stride(dx, fine, speed as int, dt as int);
    let sy = stride(dy, fine, speed as int, dt as int);
    let d = crate::geometry::dist2(position, target);
    assert(0 <= t) by (nonlinear_arith)
        requires
            t == speed * dt,
            speed >= 0,
            dt >= 0,
    ;
    assert(dx * speed * dt == dx * t && dy * speed * dt == dy * t) by (nonlinear_arith)
        requires
            t == speed * dt,
    ;
    lemma_stride_bound(dx, fine, t);
    lemma_stride_bound(dy, fine, t);
    assert(d == dx * dx + dy * dy) by (nonlinear_arith)
        requires
            dx == target.x - position.x,
            dy == target.y - position.y,
            d == (position.x - target.x) * (position.x - target.x) + (position.y - target.y) * (
            position.y - target.y),
    ;
    // The squares of the strides, taken by the square of the fine length,
    // stay below the square of the way taken by the square of the travel.
    let s2 = sx * sx + sy * sy;
    assert(s2 * (fine * fine) == (sx * fine) * (sx * fine) + (sy * fine) * (sy * fine))
        by (nonlinear_arith)
        requires
            s2 == sx * sx + sy * sy,
    ;
    assert(d * (t * t) == (dx * t) * (dx * t) + (dy * t) * (dy * t)) by (nonlinear_arith)
        requires
            d == dx * dx + dy * dy,
    ;
    assert(s2 * (fine * fine) <= d * (t * t));
    // The fine length is the floor of the root of the way taken a million
    // million times.
    let m = 1_000_000int;
    let lhs = (fine + 1) * t;
    let rhs = fine * (far * m);
    assert(lhs * lhs < rhs * rhs) by (nonlinear_arith)
        requires
            0 <= lhs < rhs,
    ;
    assert(d * (m * m) < (fine + 1) * (fine + 1)) by (nonlinear_arith)
        requires
            d * 1_000_000_000_000 < (fine + 1) * (fine + 1),
            m == 1_000_000,
    ;
    assert(d * (m * m) * (t * t) <= lhs * lhs) by (nonlinear_arith)
        requires
            d * (m * m) < (fine + 1) * (fine + 1),
            lhs == (fine + 1) * t,
            t >= 0,
            d >= 0,
    ;
    assert(s2 * (fine * fine) * (m * m) <= d * (m * m) * (t * t)) by (nonlinear_arith)
        requires
            s2 * (fine * fine) <= d * (t * t),
            m == 1_000_000,
    ;
    assert(rhs * rhs == (far * far) * (fine * fine) * (m * m)) by (nonlinear_arith)
        requires
            rhs == fine * (far * m),
    ;
    let k = (fine * fine) * (m * m);
    assert(k > 0) by (nonlinear_arith)
        requires
            k == (fine * fine) * (m * m),
            fine > 0,
            m == 1_000_000,
    ;
    assert(s2 * k < (far * far) * k) by (nonlinear_arith)
        requires
            s2 * (fine * fine) * (m * m) <= d * (m * m) * (t * t),
            d * (m * m) * (t * t) <= lhs * lhs,
            lhs * lhs < rhs * rhs,
            rhs * rhs == (far * far) * (fine * fine) * (m * m),
            k == (fine * fine) * (m * m),
    ;
    assert(s2 < far * far) by (nonlinear_arith)
        requires
            s2 * k < (far * far) * k,
            k > 0,
    ;
    // Holding a coordinate on the grid moves it no farther.
    let moved = stepped(position, target, speed, dt);
    let mx = moved.x - position.x;
    let my = moved.y - position.y;
    assert(mx * mx <= sx * sx) by (nonlinear_arith)
        requires
            (0 <= mx <= sx) || (sx <= mx <= 0),
    ;
    assert(my * my <= sy * sy) by (nonlinear_arith)
        requires
            (0 <= my <= sy) || (sy <= my <= 0),
    ;
}

/// A stride, taken by the fine length, is no longer than the coordinate
/// taken by the travel, and points the same way.
proof fn lemma_stride_bound(delta: int, fine: int, t: int)
    requires
        fine > 0,
        t >= 0,
    ensures
        (div_trunc(delta * t, fine) * fine) * (div_trunc(delta * t, fine) * fine) <= (delta * t) * (
        delta * t),
        delta >= 0 ==> div_trunc(delta * t, fine) >= 0,
        delta <= 0 ==> div_trunc(delta * t, fine) <= 0,
{
    let n = delta * t;
    lemma_div_trunc_bounds(n, fine);
    let q = div_trunc(n, fine);
    assert(delta >= 0 ==> n >= 0) by (nonlinear_arith)
        requires
            n == delta * t,
            t >= 0,
    ;
    assert(delta <= 0 ==> n <= 0) by (nonlinear_arith)
        requires
            n == delta * t,
            t >= 0,
    ;
    let a = q * fine;
    assert(q >= 0 ==> a >= 0) by (nonlinear_arith)
        requires
            a == q * fine,
            fine > 0,
    ;
    assert(q <= 0 ==> a <= 0) by (nonlinear_arith)
        requires
            a == q * fine,
            fine > 0,
    ;
    assert(a * a <= n * n) by (nonlinear_arith)
        requires
            (0 <= a <= n) || (n <= a <= 0),
    ;
}

/// One coordinate of a step.
fn advance(from: i32, to: i32, fine: u64, speed: u32, dt: u32) -> (r: i32)
    requires
        0 < fine,
    ensures
        r == advanced(from as int, to - from, fine as int, speed as int, dt as int),
{
    let delta: i128 = to as i128 - from as i128;
    assert(0 <= speed * dt <= 0xffff_ffff * 0xffff_ffff) by (nonlinear_arith)
        requires
            0 <= speed <= 0xffff_ffff,
            0 <= dt <= 0xffff_ffff,
    ;
    let pace: i128 = speed as i128 * dt as i128;
    assert(-0xffff_ffff * (0xffff_ffff * 0xffff_ffff) <= delta * pace <= 0xffff_ffff * (0xffff_ffff
        * 0xffff_ffff)) by (nonlinear_arith)
        requires
            -0xffff_ffff <= delta <= 0xffff_ffff,
            0 <= pace <= 0xffff_ffff * 0xffff_ffff,
    ;
    assert((to - from) * speed * dt == delta * pace) by (nonlinear_arith)
        requires
            delta == to - from,
            pace == speed * dt,
    ;
    let q: i128 = quotient(delta * pace, fine);
    proof {
        lemma_div_trunc_bounds(delta * pace, fine as int);
        let n = delta * pace;
        let d = fine as int;
        if n >= 0 {
            assert(q <= n) by (nonlinear_arith)
                requires
                    q * d <= n,
                    d >= 1,
                    q >= 0,
            ;
        } else {
            assert(q >= n) by (nonlinear_arith)
                requires
                    n <= q * d,
                    d >= 1,
                    q <= 0,
            ;
        }
    }
    clamp_to_i32(from as i128 + q)
}

/// Moves an agent at `position` toward `target` at `speed` (millionths of a
/// world unit per second) for `dt` microseconds.
///
/// The direction is the way to the target divided by its length, which is
/// taken a million times finer than the grid. An agent that stands on its
/// target stays. The step is not cut short at the target, and each
/// coordinate stays on the grid.
pub fn step(position: Point, target: Point, speed: u32, dt: u32) -> (r: Point)
    ensures
        r == stepped(position, target, speed, dt),
        position == target ==> r == position,
{
    proof {
        lemma_fine_length(position, target);
    }
    let fine: u64 = position.fine_distance(target);
    if fine == 0 {
        position
    } else {
        Point {
            x: advance(position.x, target.x, fine, speed, dt),
            y: advance(position.y, target.y, fine, speed, dt),
        }
    }
}

} // verus!
