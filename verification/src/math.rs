//! Fixed-point interpolation arithmetic: linear interpolation with an
//! exact rational factor, Hermite cubic-spline interpolation, and the
//! clamps that keep results inside the engine's pose range.

use vstd::prelude::*;

use crate::MAX_POSE;
use crate::MAX_TIME;
use crate::MAX_VALUE;
use crate::TICKS_PER_SECOND;
use crate::div_trunc;
use crate::div_trunc_i64;

verus! {

/// A value clamped into `[-MAX_POSE, MAX_POSE]`.
pub open spec fn clamp_pose(x: int) -> int {
    if x > MAX_POSE as int {
        MAX_POSE as int
    } else if x < -MAX_POSE as int {
        -MAX_POSE as int
    } else {
        x
    }
}

/// Linear interpolation from `a` toward `b` by the rational factor
/// `num / den`, rounding the scaled difference toward zero.
pub open spec fn lerp_spec(a: int, b: int, num: int, den: int) -> int
    recommends
        den > 0,
{
    a + div_trunc((b - a) * num, den)
}

/// The interpolation factor `num / den` keeps the result between the two
/// endpoints (inclusive) whenever `0 <= num <= den`.
pub proof fn lemma_lerp_between(a: int, b: int, num: int, den: int)
    requires
        0 <= num <= den,
        0 < den,
    ensures
        a <= b ==> a <= lerp_spec(a, b, num, den) <= b,
        b <= a ==> b <= lerp_spec(a, b, num, den) <= a,
{
    let diff = b - a;
    if diff >= 0 {
        assert(0 <= diff * num <= diff * den) by (nonlinear_arith)
            requires
                0 <= num <= den,
                diff >= 0,
        ;
        vstd::arithmetic::div_mod::lemma_div_pos_is_pos(diff * num, den);
        vstd::arithmetic::div_mod::lemma_div_is_ordered(diff * num, diff * den, den);
        assert(diff * den / den == diff) by (nonlinear_arith)
            requires
                den > 0,
        ;
    } else {
        assert(0 <= (-diff) * num <= (-diff) * den) by (nonlinear_arith)
            requires
                0 <= num <= den,
                diff < 0,
        ;
        vstd::arithmetic::div_mod::lemma_div_pos_is_pos((-diff) * num, den);
        vstd::arithmetic::div_mod::lemma_div_is_ordered((-diff) * num, (-diff) * den, den);
        assert((-diff) * den / den == -diff) by (nonlinear_arith)
            requires
                den > 0,
        ;
        assert(diff * num == -((-diff) * num)) by (nonlinear_arith);
    }
}

/// Linear interpolation from `a` toward `b` by `num / den`.
pub fn lerp_value(a: i64, b: i64, num: i64, den: i64) -> (r: i64)
    requires
        -MAX_POSE <= a <= MAX_POSE,
        -MAX_POSE <= b <= MAX_POSE,
        0 <= num <= den,
        0 < den <= MAX_TIME,
    ensures
        r == lerp_spec(a as int, b as int, num as int, den as int),
        a <= b ==> a <= r <= b,
        b <= a ==> b <= r <= a,
{
    proof {
        assert(((b - a) as int) * (num as int) <= (2 * MAX_POSE * MAX_TIME) as int && ((b
            - a) as int) * (num as int) >= -((2 * MAX_POSE * MAX_TIME) as int)) by (nonlinear_arith)
            requires
                -2 * MAX_POSE <= b - a <= 2 * MAX_POSE,
                0 <= num <= MAX_TIME,
        ;
        lemma_lerp_between(a as int, b as int, num as int, den as int);
        crate::playback::lemma_div_trunc_range(((b - a) as int) * (num as int), den as int);
    }
    let scaled: i64 = (b - a) * num;
    a + div_trunc_i64(scaled, den)
}

/// Truncating division of a possibly negative `i128` dividend by a
/// positive divisor.
pub fn div_trunc_i128(x: i128, d: i128) -> (r: i128)
    requires
        d > 0,
        x > i128::MIN,
    ensures
        r == div_trunc(x as int, d as int),
{
    if x >= 0 {
        x / d
    } else {
        -((-x) / d)
    }
}

/// Hermite cubic-spline interpolation between `value_start` and
/// `value_end` with the scaled tangents `tangent_out_start` and
/// `tangent_in_end`, at the rational factor `u = num / den` of a keyframe
/// step lasting `step_duration` ticks:
///
/// `value_start * (2u^3 - 3u^2 + 1) + tangent_out_start * dt * (u^3 - 2u^2 + u)
///  + value_end * (-2u^3 + 3u^2) + tangent_in_end * dt * (u^3 - u^2)`
///
/// where `dt` is the step duration in seconds. Evaluated exactly over the
/// integers with the Hermite basis scaled by `den^3`, the tangent terms
/// scaled back from ticks by `TICKS_PER_SECOND` (rounding toward zero),
/// and the result clamped into pose range.
pub open spec fn cubic_spline_spec(
    value_start: int,
    tangent_out_start: int,
    tangent_in_end: int,
    value_end: int,
    num: int,
    den: int,
    step_duration: int,
) -> int
    recommends
        den > 0,
{
    let n3 = num * num * num;
    let n2d = num * num * den;
    let nd2 = num * den * den;
    let d3 = den * den * den;
    let h00 = 2 * n3 - 3 * n2d + d3;
    let h10 = n3 - 2 * n2d + nd2;
    let h01 = -2 * n3 + 3 * n2d;
    let h11 = n3 - n2d;
    let tangent_part = div_trunc(
        (tangent_out_start * h10 + tangent_in_end * h11) * step_duration,
        TICKS_PER_SECOND as int,
    );
    clamp_pose(div_trunc(value_start * h00 + value_end * h01 + tangent_part, d3))
}

/// Bounds of the scaled Hermite basis monomials.
proof fn lemma_cubic_bounds(num: int, den: int)
    requires
        0 <= num <= den,
        0 < den <= MAX_TIME,
    ensures
        0 <= num * num * num <= den * den * den,
        0 <= num * num * den <= den * den * den,
        0 <= num * den * den <= den * den * den,
        0 < den * den * den <= MAX_TIME as int * MAX_TIME as int * MAX_TIME as int,
{
    assert(0 <= num * num * num <= den * den * den && 0 <= num * num * den <= den * den * den && 0
        <= num * den * den <= den * den * den && 0 < den * den * den <= MAX_TIME as int
        * MAX_TIME as int * MAX_TIME as int) by (nonlinear_arith)
        requires
            0 <= num <= den,
            0 < den <= MAX_TIME,
    ;
}

/// Hermite cubic-spline interpolation, as [`cubic_spline_spec`].
pub fn cubic_spline_interpolation(
    value_start: i64,
    tangent_out_start: i64,
    tangent_in_end: i64,
    value_end: i64,
    num: i64,
    den: i64,
    step_duration: i64,
) -> (r: i64)
    requires
        -MAX_VALUE <= value_start <= MAX_VALUE,
        -MAX_VALUE <= tangent_out_start <= MAX_VALUE,
        -MAX_VALUE <= tangent_in_end <= MAX_VALUE,
        -MAX_VALUE <= value_end <= MAX_VALUE,
        0 <= num <= den,
        0 < den <= MAX_TIME,
        0 < step_duration <= MAX_TIME,
    ensures
        r == cubic_spline_spec(
            value_start as int,
            tangent_out_start as int,
            tangent_in_end as int,
            value_end as int,
            num as int,
            den as int,
            step_duration as int,
        ),
        -MAX_POSE <= r <= MAX_POSE,
{
    proof {
        lemma_cubic_bounds(num as int, den as int);
    }
    let n: i128 = num as i128;
    let d: i128 = den as i128;
    proof {
        assert(0 <= (n as int) * (n as int) <= (MAX_TIME as int) * (MAX_TIME as int) && 0 <= (
        d as int) * (d as int) <= (MAX_TIME as int) * (MAX_TIME as int)) by (nonlinear_arith)
            requires
                0 <= n <= MAX_TIME,
                0 <= d <= MAX_TIME,
        ;
    }
    let n2: i128 = n * n;
    let d2: i128 = d * d;
    proof {
        assert(0 <= (n2 as int) * (n as int) <= (d2 as int) * (d as int) && 0 <= (n2 as int) * (
        d as int) <= (d2 as int) * (d as int) && 0 <= (n as int) * (d2 as int) <= (d2 as int) * (
        d as int) && 0 < (d2 as int) * (d as int) <= (MAX_TIME as int) * (MAX_TIME as int) * (
        MAX_TIME as int)) by (nonlinear_arith)
            requires
                0 <= n <= d,
                0 < d <= MAX_TIME,
                n2 == n * n,
                d2 == d * d,
        ;
    }
    let n3: i128 = n2 * n;
    let n2d: i128 = n2 * d;
    let nd2: i128 = n * d2;
    let d3: i128 = d2 * d;
    proof {
        assert(n3 as int == (num as int) * (num as int) * (num as int) && n2d as int == (
        num as int) * (num as int) * (den as int) && nd2 as int == (num as int) * (den as int) * (
        den as int) && d3 as int == (den as int) * (den as int) * (den as int)) by (nonlinear_arith)
            requires
                n == num as i128,
                d == den as i128,
                n2 == n * n,
                d2 == d * d,
                n3 == n2 * n,
                n2d == n2 * d,
                nd2 == n * d2,
                d3 == d2 * d,
        ;
    }
    let h00: i128 = 2 * n3 - 3 * n2d + d3;
    let h10: i128 = n3 - 2 * n2d + nd2;
    let h01: i128 = -2 * n3 + 3 * n2d;
    let h11: i128 = n3 - n2d;
    proof {
        assert((value_start as int) * (h00 as int) <= 6 * (MAX_VALUE as int) * (d3 as int) && (
        value_start as int) * (h00 as int) >= -6 * (MAX_VALUE as int) * (d3 as int) && (
        value_end as int) * (h01 as int) <= 6 * (MAX_VALUE as int) * (d3 as int) && (
        value_end as int) * (h01 as int) >= -6 * (MAX_VALUE as int) * (d3 as int) && (
        tangent_out_start as int) * (h10 as int) <= 4 * (MAX_VALUE as int) * (d3 as int) && (
        tangent_out_start as int) * (h10 as int) >= -4 * (MAX_VALUE as int) * (d3 as int) && (
        tangent_in_end as int) * (h11 as int) <= 4 * (MAX_VALUE as int) * (d3 as int) && (
        tangent_in_end as int) * (h11 as int) >= -4 * (MAX_VALUE as int) * (d3 as int))
            by (nonlinear_arith)
            requires
                -MAX_VALUE <= value_start <= MAX_VALUE,
                -MAX_VALUE <= value_end <= MAX_VALUE,
                -MAX_VALUE <= tangent_out_start <= MAX_VALUE,
                -MAX_VALUE <= tangent_in_end <= MAX_VALUE,
                0 <= n3 <= d3,
                0 <= n2d <= d3,
                0 <= nd2 <= d3,
                0 < d3,
                h00 == 2 * n3 - 3 * n2d + d3,
                h01 == -2 * n3 + 3 * n2d,
                h10 == n3 - 2 * n2d + nd2,
                h11 == n3 - n2d,
        ;
    }
    proof {
        assert(6 * (MAX_VALUE as int) * (d3 as int) <= 6 * (MAX_VALUE as int) * ((
        MAX_TIME as int) * (MAX_TIME as int) * (MAX_TIME as int)) && 4 * (MAX_VALUE as int) * (
        d3 as int) <= 4 * (MAX_VALUE as int) * ((MAX_TIME as int) * (MAX_TIME as int) * (
        MAX_TIME as int)) && 8 * (MAX_VALUE as int) * (d3 as int) * (MAX_TIME as int) <= 8 * (
        MAX_VALUE as int) * ((MAX_TIME as int) * (MAX_TIME as int) * (MAX_TIME as int)) * (
        MAX_TIME as int)) by (nonlinear_arith)
            requires
                0 <= d3 <= (MAX_TIME as int) * (MAX_TIME as int) * (MAX_TIME as int),
        ;
    }
    proof {
        assert(-0x10_0000_0000_0000_0000_0000 <= (tangent_out_start as int) * (h10 as int) <= 0x10_0000_0000_0000_0000_0000
            && -0x10_0000_0000_0000_0000_0000 <= (tangent_in_end as int) * (h11 as int) <= 0x10_0000_0000_0000_0000_0000)
            by (nonlinear_arith)
            requires
                -MAX_VALUE <= tangent_out_start <= MAX_VALUE,
                -MAX_VALUE <= tangent_in_end <= MAX_VALUE,
                -0x4000_0000_0000_0000 <= h10 <= 0x4000_0000_0000_0000,
                -0x4000_0000_0000_0000 <= h11 <= 0x4000_0000_0000_0000,
        ;
    }
    let t0: i128 = (tangent_out_start as i128) * h10;
    let t1: i128 = (tangent_in_end as i128) * h11;
    let tsum: i128 = t0 + t1;
    proof {
        assert(-0x2000_0000_0000_0000_0000_0000_0000 <= (tsum as int) * (step_duration as int)
            <= 0x2000_0000_0000_0000_0000_0000_0000) by (nonlinear_arith)
            requires
                -0x20_0000_0000_0000_0000_0000 <= tsum <= 0x20_0000_0000_0000_0000_0000,
                0 < step_duration <= MAX_TIME,
        ;
        crate::playback::lemma_div_trunc_range(
            (tsum as int) * (step_duration as int),
            TICKS_PER_SECOND as int,
        );
    }
    let tangent_part: i128 = div_trunc_i128(tsum * (step_duration as i128), TICKS_PER_SECOND as i128);
    proof {
        assert(-0x10_0000_0000_0000_0000_0000 <= (value_start as int) * (h00 as int) <= 0x10_0000_0000_0000_0000_0000
            && -0x10_0000_0000_0000_0000_0000 <= (value_end as int) * (h01 as int) <= 0x10_0000_0000_0000_0000_0000)
            by (nonlinear_arith)
            requires
                -MAX_VALUE <= value_start <= MAX_VALUE,
                -MAX_VALUE <= value_end <= MAX_VALUE,
                -0x8000_0000_0000_0000 <= h00 <= 0x8000_0000_0000_0000,
                -0x8000_0000_0000_0000 <= h01 <= 0x8000_0000_0000_0000,
        ;
    }
    let va: i128 = (value_start as i128) * h00;
    let vb: i128 = (value_end as i128) * h01;
    proof {
        crate::playback::lemma_div_trunc_range((va + vb + tangent_part) as int, d3 as int);
    }
    let total: i128 = div_trunc_i128(va + vb + tangent_part, d3);
    if total > MAX_POSE as i128 {
        MAX_POSE
    } else if total < -MAX_POSE as i128 {
        -MAX_POSE
    } else {
        total as i64
    }
}

} // verus!
