//! Fixed-point angles and rotation.
//!
//! Angles are thousandths of a radian.  Sine and cosine are the classic
//! parabolic approximation `sin x = 4x(PI - x) / PI^2` on `[0, PI]`, odd
//! about `PI`; it is exact at `0`, `PI/2` and `PI`, so upright headings
//! rotate vectors exactly.

use vstd::prelude::*;
use crate::fx::{clamp_fx, emod_fx, in_range, tdiv, SCALE};
use crate::vec2::V2;

verus! {

/// One half turn, thousandths of a radian.
pub const PI_FX: i64 = 3142;

/// One full turn, thousandths of a radian.
pub const TAU_FX: i64 = 6284;

/// One quarter turn, thousandths of a radian.
pub const HALF_PI_FX: i64 = 1571;

/// The angle folded into `[-PI_FX, PI_FX)`.
pub open spec fn norm_angle_spec(a: int) -> int {
    (a + PI_FX) % (TAU_FX as int) - PI_FX
}

/// Fold an angle into `[-PI_FX, PI_FX)`.
pub fn norm_angle(a: i64) -> (r: i64)
    requires
        in_range(a as int),
    ensures
        r == norm_angle_spec(a as int),
        -PI_FX <= r < PI_FX,
{
    let m = emod_fx(a + PI_FX, TAU_FX);
    m - PI_FX
}

/// The parabola `4 u (PI - u) SCALE / PI^2` for `u` in `[0, PI]`,
/// the positive half-wave of the sine.
pub open spec fn half_wave(u: int) -> int {
    (4 * u * (PI_FX - u) * SCALE) / (PI_FX as int * PI_FX as int)
}

/// Fixed-point sine of an angle in thousandths of a radian.
pub open spec fn sin_spec(a: int) -> int {
    let m = a % (TAU_FX as int);
    if m <= PI_FX {
        half_wave(m)
    } else {
        -half_wave(m - PI_FX)
    }
}

/// Fixed-point cosine: the sine shifted a quarter turn.
pub open spec fn cos_spec(a: int) -> int {
    sin_spec(a + HALF_PI_FX)
}

/// The half-wave stays within `[0, SCALE]` on `[0, PI]`.
proof fn lemma_half_wave_bounds(u: int)
    requires
        0 <= u <= PI_FX,
    ensures
        0 <= half_wave(u) <= SCALE,
{
    let num = 4 * u * (PI_FX - u) * SCALE;
    let den = PI_FX as int * PI_FX as int;
    assert(0 <= num && num <= den * SCALE) by (nonlinear_arith)
        requires
            0 <= u <= PI_FX,
            num == 4 * u * (PI_FX - u) * SCALE,
            den == PI_FX as int * PI_FX as int,
    ;
    assert(num / den >= 0) by {
        vstd::arithmetic::div_mod::lemma_div_pos_is_pos(num, den);
    };
    assert(num / den <= SCALE) by {
        vstd::arithmetic::div_mod::lemma_div_is_ordered(num, den * SCALE, den);
        vstd::arithmetic::div_mod::lemma_div_multiples_vanish(SCALE as int, den);
        assert(den * SCALE == SCALE as int * den) by (nonlinear_arith);
    };
}

/// The numerator of the half-wave grows through small, safe products.
proof fn lemma_half_wave_num_bounds(u: int)
    requires
        0 <= u <= PI_FX,
    ensures
        0 <= 4 * u <= 12568,
        0 <= 4 * u * (PI_FX - u) <= 39488656,
        0 <= 4 * u * (PI_FX - u) * SCALE <= 39488656000,
{
    assert(0 <= 4 * u * (PI_FX - u) <= 39488656
        && 0 <= 4 * u * (PI_FX - u) * SCALE <= 39488656000) by (nonlinear_arith)
        requires
            0 <= u <= PI_FX,
    ;
}

/// Evaluate the half-wave.
fn half_wave_exec(u: i64) -> (r: i64)
    requires
        0 <= u <= PI_FX,
    ensures
        r == half_wave(u as int),
        0 <= r <= SCALE,
{
    proof {
        lemma_half_wave_num_bounds(u as int);
        lemma_half_wave_bounds(u as int);
    }
    let num: u64 = 4 * (u as u64) * ((PI_FX - u) as u64) * (SCALE as u64);
    let den: u64 = (PI_FX as u64) * (PI_FX as u64);
    let q: u64 = num / den;
    q as i64
}

/// Fixed-point sine.
pub fn sin_fx(a: i64) -> (r: i64)
    ensures
        r == sin_spec(a as int),
        -SCALE <= r <= SCALE,
{
    let m = emod_fx(a, TAU_FX);
    proof {
        if m > PI_FX {
            lemma_half_wave_bounds(m - PI_FX);
        } else {
            lemma_half_wave_bounds(m as int);
        }
    }
    if m <= PI_FX {
        half_wave_exec(m)
    } else {
        -half_wave_exec(m - PI_FX)
    }
}

/// Fixed-point cosine.
pub fn cos_fx(a: i64) -> (r: i64)
    requires
        a + HALF_PI_FX <= i64::MAX,
    ensures
        r == cos_spec(a as int),
        -SCALE <= r <= SCALE,
{
    sin_fx(a + HALF_PI_FX)
}

/// The vector rotated counterclockwise by the angle, in fixed point:
/// components combined through sine and cosine, each product rounded
/// toward zero and clamped.
pub open spec fn rotate_spec(a: int, v: V2) -> V2 {
    let c = cos_spec(a);
    let s = sin_spec(a);
    V2 {
        x: clamp_fx(tdiv(v.x * c - v.y * s, SCALE as int)) as i64,
        y: clamp_fx(tdiv(v.x * s + v.y * c, SCALE as int)) as i64,
    }
}

/// Rotate a vector counterclockwise by an angle.
pub fn rotate_v(a: i64, v: V2) -> (r: V2)
    requires
        in_range(a as int),
        v.wf(),
    ensures
        r == rotate_spec(a as int, v),
        r.wf(),
{
    let c = cos_fx(a);
    let s = sin_fx(a);
    proof {
        lemma_rotate_products(v, c as int, s as int);
    }
    let px: i128 = (v.x as i128) * (c as i128) - (v.y as i128) * (s as i128);
    let py: i128 = (v.x as i128) * (s as i128) + (v.y as i128) * (c as i128);
    let x = crate::fx::clamp128(crate::fx::tdiv128(px, SCALE as i128));
    let y = crate::fx::clamp128(crate::fx::tdiv128(py, SCALE as i128));
    V2 { x, y }
}

/// Products of an in-range vector with sine/cosine values stay small.
proof fn lemma_rotate_products(v: V2, c: int, s: int)
    requires
        v.wf(),
        -SCALE <= c <= SCALE,
        -SCALE <= s <= SCALE,
    ensures
        -0x400000000000 <= v.x * c <= 0x400000000000,
        -0x400000000000 <= v.y * s <= 0x400000000000,
        -0x400000000000 <= v.x * s <= 0x400000000000,
        -0x400000000000 <= v.y * c <= 0x400000000000,
{
    assert(-0x400000000000 <= v.x * c <= 0x400000000000
        && -0x400000000000 <= v.y * s <= 0x400000000000
        && -0x400000000000 <= v.x * s <= 0x400000000000
        && -0x400000000000 <= v.y * c <= 0x400000000000) by (nonlinear_arith)
        requires
            -0x10000000 <= v.x <= 0x10000000,
            -0x10000000 <= v.y <= 0x10000000,
            -SCALE <= c <= SCALE,
            -SCALE <= s <= SCALE,
    ;
}

/// Rotating by angle zero is the identity on well-formed vectors.
pub proof fn lemma_rotate_zero(v: V2)
    requires
        v.wf(),
    ensures
        rotate_spec(0, v) == v,
{
    lemma_trig_zero();
    assert(tdiv(v.x * SCALE, SCALE as int) == v.x && tdiv(v.y * SCALE, SCALE as int) == v.y) by {
        lemma_cancel_scale(v.x as int);
        lemma_cancel_scale(v.y as int);
    };
}

/// Sine and cosine at zero are exactly `0` and `SCALE`.
pub proof fn lemma_trig_zero()
    ensures
        sin_spec(0) == 0,
        cos_spec(0) == SCALE,
{
    assert(0int % 6284 == 0);
    assert(half_wave(0) == 0);
    assert(1571int % 6284 == 1571);
    assert(half_wave(1571) == 9872164000int / 9872164);
    assert(9872164int * 1000 == 9872164000) by (nonlinear_arith);
    assert(9872164000int / 9872164int == 1000) by {
        vstd::arithmetic::div_mod::lemma_div_multiples_vanish(1000, 9872164);
    };
}

/// `x * SCALE / SCALE == x`, in the truncating division.
pub proof fn lemma_cancel_scale(x: int)
    ensures
        tdiv(x * SCALE, SCALE as int) == x,
{
    if x >= 0 {
        assert(x * SCALE >= 0) by (nonlinear_arith)
            requires
                x >= 0,
        ;
        vstd::arithmetic::div_mod::lemma_div_multiples_vanish(x, SCALE as int);
        assert(x * SCALE == SCALE as int * x) by (nonlinear_arith);
    } else {
        assert(x * SCALE < 0) by (nonlinear_arith)
            requires
                x < 0,
        ;
        assert(-(x * SCALE) == (-x) * SCALE) by (nonlinear_arith);
        vstd::arithmetic::div_mod::lemma_div_multiples_vanish(-x, SCALE as int);
        assert((-x) * SCALE == SCALE as int * (-x)) by (nonlinear_arith);
    }
}

} // verus!
