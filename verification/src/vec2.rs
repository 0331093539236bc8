//! Fixed-point 2D vectors (meters, or meters per second).

use vstd::prelude::*;
use crate::fx::{
    add_fx, add_fx_spec, clamp_fx, div_fx, div_fx_spec, in_range, isqrt, mul_fx, mul_fx_spec,
    sub_fx, sub_fx_spec, tdiv, SCALE,
};

verus! {

/// A 2D vector with fixed-point components.
#[derive(Clone, Copy, Debug, PartialEq, Eq, Structural)]
pub struct V2 {
    pub x: i64,
    pub y: i64,
}

impl V2 {
    /// Both components are within the representable range.
    pub open spec fn wf(self) -> bool {
        in_range(self.x as int) && in_range(self.y as int)
    }
}

/// The componentwise sum, clamped.
pub open spec fn add_v_spec(a: V2, b: V2) -> V2 {
    V2 { x: add_fx_spec(a.x as int, b.x as int) as i64, y: add_fx_spec(a.y as int, b.y as int) as i64 }
}

/// The componentwise difference, clamped.
pub open spec fn sub_v_spec(a: V2, b: V2) -> V2 {
    V2 { x: sub_fx_spec(a.x as int, b.x as int) as i64, y: sub_fx_spec(a.y as int, b.y as int) as i64 }
}

/// The vector scaled by a fixed-point factor.
pub open spec fn scale_v_spec(v: V2, k: int) -> V2 {
    V2 { x: mul_fx_spec(v.x as int, k) as i64, y: mul_fx_spec(v.y as int, k) as i64 }
}

/// The negated vector, clamped.
pub open spec fn neg_v_spec(v: V2) -> V2 {
    sub_v_spec(V2 { x: 0, y: 0 }, v)
}

/// The fixed-point dot product.
pub open spec fn dot_spec(a: V2, b: V2) -> int {
    clamp_fx(tdiv(a.x * b.x + a.y * b.y, SCALE as int))
}

/// The fixed-point 2D cross product (z-component of the 3D cross product).
pub open spec fn cross_spec(a: V2, b: V2) -> int {
    clamp_fx(tdiv(a.x * b.y - a.y * b.x, SCALE as int))
}

/// The floor of the square root of a nonnegative integer.
pub open spec fn sqrt_floor(n: int) -> int {
    choose|r: int| 0 <= r && #[trigger] (r * r) <= n && n < (r + 1) * (r + 1)
}

/// The Euclidean length of the vector (same fixed-point scale), rounded down.
pub open spec fn len_spec(v: V2) -> int {
    sqrt_floor(v.x * v.x + v.y * v.y)
}

/// The vector rescaled to unit length (`SCALE` in fixed point); the zero
/// vector is left unchanged rather than divided by zero.
pub open spec fn norm_spec(v: V2) -> V2 {
    if len_spec(v) == 0 {
        V2 { x: 0, y: 0 }
    } else {
        V2 {
            x: div_fx_spec(v.x as int, len_spec(v)) as i64,
            y: div_fx_spec(v.y as int, len_spec(v)) as i64,
        }
    }
}

pub fn add_v(a: V2, b: V2) -> (r: V2)
    ensures
        r == add_v_spec(a, b),
        r.wf(),
{
    V2 { x: add_fx(a.x, b.x), y: add_fx(a.y, b.y) }
}

pub fn sub_v(a: V2, b: V2) -> (r: V2)
    ensures
        r == sub_v_spec(a, b),
        r.wf(),
{
    V2 { x: sub_fx(a.x, b.x), y: sub_fx(a.y, b.y) }
}

pub fn scale_v(v: V2, k: i64) -> (r: V2)
    ensures
        r == scale_v_spec(v, k as int),
        r.wf(),
{
    V2 { x: mul_fx(v.x, k), y: mul_fx(v.y, k) }
}

pub fn neg_v(v: V2) -> (r: V2)
    ensures
        r == neg_v_spec(v),
        r.wf(),
{
    V2 { x: sub_fx(0, v.x), y: sub_fx(0, v.y) }
}

pub fn dot(a: V2, b: V2) -> (r: i64)
    requires
        a.wf(),
        b.wf(),
    ensures
        r == dot_spec(a, b),
        in_range(r as int),
{
    proof {
        lemma_wf_products(a, b);
    }
    let p: i128 = (a.x as i128) * (b.x as i128) + (a.y as i128) * (b.y as i128);
    let q: i128 = crate::fx::tdiv128(p, SCALE as i128);
    crate::fx::clamp128(q)
}

pub fn cross(a: V2, b: V2) -> (r: i64)
    requires
        a.wf(),
        b.wf(),
    ensures
        r == cross_spec(a, b),
        in_range(r as int),
{
    proof {
        lemma_wf_products(a, b);
    }
    let p: i128 = (a.x as i128) * (b.y as i128) - (a.y as i128) * (b.x as i128);
    let q: i128 = crate::fx::tdiv128(p, SCALE as i128);
    crate::fx::clamp128(q)
}

/// Componentwise products of vectors in range stay far inside `i128`.
proof fn lemma_wf_products(a: V2, b: V2)
    requires
        a.wf(),
        b.wf(),
    ensures
        -0x10000000000000000 <= a.x * b.x <= 0x10000000000000000,
        -0x10000000000000000 <= a.y * b.y <= 0x10000000000000000,
        -0x10000000000000000 <= a.x * b.y <= 0x10000000000000000,
        -0x10000000000000000 <= a.y * b.x <= 0x10000000000000000,
{
    assert(-0x10000000000000000 <= a.x * b.x <= 0x10000000000000000
        && -0x10000000000000000 <= a.y * b.y <= 0x10000000000000000
        && -0x10000000000000000 <= a.x * b.y <= 0x10000000000000000
        && -0x10000000000000000 <= a.y * b.x <= 0x10000000000000000) by (nonlinear_arith)
        requires
            -0x10000000 <= a.x <= 0x10000000,
            -0x10000000 <= a.y <= 0x10000000,
            -0x10000000 <= b.x <= 0x10000000,
            -0x10000000 <= b.y <= 0x10000000,
    ;
}

/// The length of a vector whose components are in range.
pub fn len_v(v: V2) -> (r: i64)
    requires
        v.wf(),
    ensures
        r == len_spec(v),
        0 <= r < 0x20000000,
{
    proof {
        lemma_sq_sum_bounds(v.x as int, v.y as int);
    }
    let sq: u128 = ((v.x as i128) * (v.x as i128) + (v.y as i128) * (v.y as i128)) as u128;
    let r: u64 = isqrt(sq);
    proof {
        lemma_sqrt_agrees(sq as int, r as int);
        lemma_root_small(sq as int, r as int);
    }
    r as i64
}

/// The squared length of an in-range vector is nonnegative and small.
proof fn lemma_sq_sum_bounds(x: int, y: int)
    requires
        -0x10000000 <= x <= 0x10000000,
        -0x10000000 <= y <= 0x10000000,
    ensures
        0 <= x * x < 0x200000000000000,
        0 <= y * y < 0x200000000000000,
        0 <= x * x + y * y <= 0x200000000000000,
{
    assert(x * x >= 0 && y * y >= 0 && x * x < 0x200000000000000
        && y * y < 0x200000000000000 && x * x + y * y <= 0x200000000000000)
        by (nonlinear_arith)
        requires
            -0x10000000 <= x <= 0x10000000,
            -0x10000000 <= y <= 0x10000000,
    ;
}

/// A square root of a small square is itself small.
proof fn lemma_root_small(sq: int, r: int)
    requires
        0 <= r,
        sq <= 0x200000000000000,
        r * r <= sq,
    ensures
        r < 0x20000000,
{
    assert(r < 0x20000000) by (nonlinear_arith)
        requires
            0 <= r,
            sq <= 0x200000000000000,
            r * r <= sq,
    ;
}

/// Any value meeting the square-root bracketing is `sqrt_floor`.
pub proof fn lemma_sqrt_agrees(n: int, r: int)
    requires
        0 <= r,
        r * r <= n,
        n < (r + 1) * (r + 1),
    ensures
        sqrt_floor(n) == r,
{
    assert(exists|q: int| 0 <= q && #[trigger] (q * q) <= n && n < (q + 1) * (q + 1)) by {
        assert(0 <= r && r * r <= n && n < (r + 1) * (r + 1));
    };
    let q = choose|q: int| 0 <= q && #[trigger] (q * q) <= n && n < (q + 1) * (q + 1);
    assert(q == r) by (nonlinear_arith)
        requires
            0 <= r,
            r * r <= n,
            n < (r + 1) * (r + 1),
            0 <= q,
            q * q <= n,
            n < (q + 1) * (q + 1),
    ;
}

/// Rescale to unit length (`SCALE`); the zero vector stays zero.
pub fn norm_v(v: V2) -> (r: V2)
    requires
        v.wf(),
    ensures
        r == norm_spec(v),
        r.wf(),
{
    let l: i64 = len_v(v);
    if l == 0 {
        V2 { x: 0, y: 0 }
    } else {
        V2 { x: div_fx(v.x, l), y: div_fx(v.y, l) }
    }
}

/// The counterclockwise perpendicular, clamped.
pub open spec fn perp_spec(v: V2) -> V2 {
    V2 { x: sub_fx_spec(0, v.y as int) as i64, y: v.x }
}

pub fn perp(v: V2) -> (r: V2)
    ensures
        r == perp_spec(v),
{
    V2 { x: sub_fx(0, v.y), y: v.x }
}

} // verus!
