//! Linear interpolation of scalars, 2D vectors and colours.

use crate::clock::Progress;
use vstd::prelude::*;

verus! {

/// A point or a velocity in the plane.
#[derive(Clone, Copy, Debug, PartialEq, Eq, Structural)]
pub struct Vec2 {
    pub x: i64,
    pub y: i64,
}

/// A colour as four independent channels.
#[derive(Clone, Copy, Debug, PartialEq, Eq, Structural)]
pub struct Rgba {
    pub r: i64,
    pub g: i64,
    pub b: i64,
    pub a: i64,
}

/// The exact interpolant `a * (1 - t) + b * t`, multiplied by the
/// denominator of `t`.
pub open spec fn lerp_scaled(a: int, b: int, t: Progress) -> int {
    a * (t.den - t.num) + b * t.num
}

/// The interpolant `a * (1 - t) + b * t` as an integer: the distance
/// travelled from `a` towards `b` is rounded down.
pub open spec fn lerp_spec(a: int, b: int, t: Progress) -> int {
    if b >= a {
        a + ((b - a) * t.num) / (t.den as int)
    } else {
        a - ((a - b) * t.num) / (t.den as int)
    }
}

/// Componentwise interpolation of two vectors.
pub open spec fn lerp_vec2_spec(a: Vec2, b: Vec2, t: Progress) -> Vec2 {
    Vec2 {
        x: lerp_spec(a.x as int, b.x as int, t) as i64,
        y: lerp_spec(a.y as int, b.y as int, t) as i64,
    }
}

/// Channelwise interpolation of two colours.
pub open spec fn lerp_color_spec(a: Rgba, b: Rgba, t: Progress) -> Rgba {
    Rgba {
        r: lerp_spec(a.r as int, b.r as int, t) as i64,
        g: lerp_spec(a.g as int, b.g as int, t) as i64,
        b: lerp_spec(a.b as int, b.b as int, t) as i64,
        a: lerp_spec(a.a as int, b.a as int, t) as i64,
    }
}

/// The distance `diff * num / den` covered at a progress `num / den` of at
/// most one never exceeds `diff`.
proof fn lemma_step_bounded(diff: int, num: int, den: int)
    requires
        0 <= diff,
        0 <= num <= den,
        0 < den,
    ensures
        0 <= (diff * num) / den <= diff,
        0 <= diff * num <= diff * den,
{
    assert(0 <= diff * num <= diff * den) by (nonlinear_arith)
        requires
            0 <= diff,
            0 <= num <= den,
    ;
    assert((diff * den) / den == diff) by (nonlinear_arith)
        requires
            0 < den,
    ;
    assert((diff * num) / den <= (diff * den) / den) by (nonlinear_arith)
        requires
            0 <= diff * num <= diff * den,
            0 < den,
    ;
    assert(0 <= (diff * num) / den) by (nonlinear_arith)
        requires
            0 <= diff * num,
            0 < den,
    ;
}

/// Whether the interpolant of `a` and `b` at `t` is defined and fits `i64`.
/// It always does for a progress between zero and one.
pub open spec fn lerp_fits(a: int, b: int, t: Progress) -> bool {
    t.den > 0 && i64::MIN <= lerp_spec(a, b, t) <= i64::MAX
}

/// Whether both components of the interpolant fit.
pub open spec fn lerp_vec2_fits(a: Vec2, b: Vec2, t: Progress) -> bool {
    lerp_fits(a.x as int, b.x as int, t) && lerp_fits(a.y as int, b.y as int, t)
}

/// Whether all four channels of the interpolant fit.
pub open spec fn lerp_color_fits(a: Rgba, b: Rgba, t: Progress) -> bool {
    &&& lerp_fits(a.r as int, b.r as int, t)
    &&& lerp_fits(a.g as int, b.g as int, t)
    &&& lerp_fits(a.b as int, b.b as int, t)
    &&& lerp_fits(a.a as int, b.a as int, t)
}

/// For a progress between zero and one the interpolant lies between the
/// start and the end value.
pub proof fn lemma_lerp_between(a: int, b: int, t: Progress)
    requires
        t.wf(),
    ensures
        a <= b ==> a <= lerp_spec(a, b, t) <= b,
        b <= a ==> b <= lerp_spec(a, b, t) <= a,
{
    if b >= a {
        lemma_step_bounded(b - a, t.num as int, t.den as int);
    } else {
        lemma_step_bounded(a - b, t.num as int, t.den as int);
    }
}

/// Interpolation of values of `i64` at a progress between zero and one
/// always fits.
pub proof fn lemma_lerp_fits(a: i64, b: i64, t: Progress)
    requires
        t.wf(),
    ensures
        lerp_fits(a as int, b as int, t),
{
    lemma_lerp_between(a as int, b as int, t);
}

/// Interpolates between `a` and `b` at progress `t`. The progress is not
/// clamped: above one the result runs past `b`, as far as `i64` reaches.
pub fn lerp(a: i64, b: i64, t: Progress) -> (r: i64)
    requires
        lerp_fits(a as int, b as int, t),
    ensures
        r == lerp_spec(a as int, b as int, t),
        t.num <= t.den && a <= b ==> a <= r <= b,
        t.num <= t.den && b <= a ==> b <= r <= a,
{
    let num: u128 = t.num as u128;
    let den: u128 = t.den as u128;
    proof {
        if t.num <= t.den {
            lemma_lerp_between(a as int, b as int, t);
        }
    }
    if b >= a {
        let diff: u128 = (b as i128 - a as i128) as u128;
        assert(diff * num <= 0xffff_ffff_ffff_ffff * 0xffff_ffff_ffff_ffff) by (nonlinear_arith)
            requires
                0 <= diff <= 0xffff_ffff_ffff_ffff,
                0 <= num <= 0xffff_ffff_ffff_ffff,
        ;
        let step: u128 = diff * num / den;
        (a as i128 + step as i128) as i64
    } else {
        let diff: u128 = (a as i128 - b as i128) as u128;
        assert(diff * num <= 0xffff_ffff_ffff_ffff * 0xffff_ffff_ffff_ffff) by (nonlinear_arith)
            requires
                0 <= diff <= 0xffff_ffff_ffff_ffff,
                0 <= num <= 0xffff_ffff_ffff_ffff,
        ;
        let step: u128 = diff * num / den;
        (a as i128 - step as i128) as i64
    }
}

/// Interpolates between `a` and `b` at any progress, or returns `None`
/// where the denominator is zero or the result does not fit `i64`.
pub fn lerp_checked(a: i64, b: i64, t: Progress) -> (r: Option<i64>)
    ensures
        r.is_some() <==> lerp_fits(a as int, b as int, t),
        r.is_some() ==> r.unwrap() == lerp_spec(a as int, b as int, t),
{
    if t.den == 0 {
        return None;
    }
    let num: u128 = t.num as u128;
    let den: u128 = t.den as u128;
    let diff: u128 = if b >= a {
        (b as i128 - a as i128) as u128
    } else {
        (a as i128 - b as i128) as u128
    };
    assert(diff * num <= 0xffff_ffff_ffff_ffff * 0xffff_ffff_ffff_ffff) by (nonlinear_arith)
        requires
            0 <= diff <= 0xffff_ffff_ffff_ffff,
            0 <= num <= 0xffff_ffff_ffff_ffff,
    ;
    let step: u128 = diff * num / den;
    let room: u128 = if b >= a {
        (i64::MAX as i128 - a as i128) as u128
    } else {
        (a as i128 - i64::MIN as i128) as u128
    };
    if step > room {
        None
    } else if b >= a {
        Some((a as i128 + step as i128) as i64)
    } else {
        Some((a as i128 - step as i128) as i64)
    }
}

/// Interpolates between two vectors, axis by axis.
pub fn lerp_vec2(a: Vec2, b: Vec2, t: Progress) -> (r: Vec2)
    requires
        lerp_vec2_fits(a, b, t),
    ensures
        r == lerp_vec2_spec(a, b, t),
{
    Vec2 { x: lerp(a.x, b.x, t), y: lerp(a.y, b.y, t) }
}

/// Interpolates between two colours, channel by channel.
pub fn lerp_color(a: Rgba, b: Rgba, t: Progress) -> (r: Rgba)
    requires
        lerp_color_fits(a, b, t),
    ensures
        r == lerp_color_spec(a, b, t),
{
    Rgba {
        r: lerp(a.r, b.r, t),
        g: lerp(a.g, b.g, t),
        b: lerp(a.b, b.b, t),
        a: lerp(a.a, b.a, t),
    }
}

/// Interpolation of vectors at a progress between zero and one always fits.
pub proof fn lemma_lerp_vec2_fits(a: Vec2, b: Vec2, t: Progress)
    requires
        t.wf(),
    ensures
        lerp_vec2_fits(a, b, t),
{
    lemma_lerp_fits(a.x, b.x, t);
    lemma_lerp_fits(a.y, b.y, t);
}

/// Interpolation of colours at a progress between zero and one always fits.
pub proof fn lemma_lerp_color_fits(a: Rgba, b: Rgba, t: Progress)
    requires
        t.wf(),
    ensures
        lerp_color_fits(a, b, t),
{
    lemma_lerp_fits(a.r, b.r, t);
    lemma_lerp_fits(a.g, b.g, t);
    lemma_lerp_fits(a.b, b.b, t);
    lemma_lerp_fits(a.a, b.a, t);
}

/// At progress zero the interpolant is the start value.
pub proof fn lemma_lerp_at_zero(a: int, b: int, t: Progress)
    requires
        t.wf(),
        t.num == 0,
    ensures
        lerp_spec(a, b, t) == a,
{
    assert((b - a) * 0 == 0);
    assert((a - b) * 0 == 0);
    assert(0int / (t.den as int) == 0) by (nonlinear_arith)
        requires
            t.den > 0,
    ;
}

/// At progress one the interpolant is the end value.
pub proof fn lemma_lerp_at_one(a: int, b: int, t: Progress)
    requires
        t.wf(),
        t.num == t.den,
    ensures
        lerp_spec(a, b, t) == b,
{
    let d = t.den as int;
    assert(((b - a) * d) / d == b - a) by (nonlinear_arith)
        requires
            d > 0,
    ;
    assert(((a - b) * d) / d == a - b) by (nonlinear_arith)
        requires
            d > 0,
    ;
}

/// The exact interpolant is affine in the progress: over one denominator,
/// equal steps of progress change it by equal amounts.
pub proof fn lemma_lerp_scaled_affine(a: int, b: int, s: Progress, t: Progress)
    requires
        s.den == t.den,
    ensures
        lerp_scaled(a, b, t) - lerp_scaled(a, b, s) == (b - a) * (t.num - s.num),
        lerp_scaled(a, b, t) == a * t.den + (b - a) * t.num,
{
    assert(a * (t.den - t.num) + b * t.num == a * t.den + (b - a) * t.num) by (nonlinear_arith);
    assert(a * (s.den - s.num) + b * s.num == a * s.den + (b - a) * s.num) by (nonlinear_arith);
    assert((a * t.den + (b - a) * t.num) - (a * t.den + (b - a) * s.num) == (b - a) * (t.num
        - s.num)) by (nonlinear_arith);
}

/// The integer interpolant is the exact one rounded towards the start value:
/// it differs from the exact interpolant by less than one unit, at every
/// progress, also above one.
pub proof fn lemma_lerp_rounding(a: int, b: int, t: Progress)
    requires
        t.den > 0,
    ensures
        b >= a ==> 0 <= lerp_scaled(a, b, t) - lerp_spec(a, b, t) * t.den < t.den,
        b < a ==> 0 <= lerp_spec(a, b, t) * t.den - lerp_scaled(a, b, t) < t.den,
{
    let d = t.den as int;
    let n = t.num as int;
    lemma_lerp_scaled_affine(a, b, t, t);
    if b >= a {
        let p = (b - a) * n;
        let q = p / d;
        assert(0 <= p - q * d < d) by (nonlinear_arith)
            requires
                q == p / d,
                d > 0,
        ;
        assert((a + q) * d == a * d + q * d) by (nonlinear_arith);
    } else {
        let p = (a - b) * n;
        let q = p / d;
        assert(0 <= p - q * d < d) by (nonlinear_arith)
            requires
                q == p / d,
                d > 0,
        ;
        assert((a - q) * d == a * d - q * d) by (nonlinear_arith);
        assert((b - a) * n == -((a - b) * n)) by (nonlinear_arith);
    }
}

} // verus!
