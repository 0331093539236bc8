//! Fixed-point scalar arithmetic.
//!
//! A quantity is an `i64` counting thousandths of its unit (`SCALE` per whole
//! unit).  Results are clamped into `[-MAX_FX, MAX_FX]`, so every operation is
//! total; within that range all operations are exact, with products rounded
//! toward zero as in `i64` division.

use vstd::prelude::*;

verus! {

/// Number of fixed-point steps per whole unit (meter, second, radian).
pub const SCALE: i64 = 1000;

/// Largest representable magnitude.  Kept well below `i64::MAX` so that
/// intermediate products of a handful of values fit in an `i128`.
pub const MAX_FX: i64 = 0x10000000;

/// Clamp a mathematical integer into the representable range.
pub open spec fn clamp_fx(x: int) -> int {
    if x > MAX_FX {
        MAX_FX as int
    } else if x < -(MAX_FX as int) {
        -(MAX_FX as int)
    } else {
        x
    }
}

/// Division truncating toward zero (the rounding of `i64` division),
/// for a positive divisor.
pub open spec fn tdiv(n: int, d: int) -> int {
    if n >= 0 {
        n / d
    } else {
        -((-n) / d)
    }
}

/// The exact fixed-point product: `a * b` in thousandths, rounded toward zero.
pub open spec fn mul_fx_spec(a: int, b: int) -> int {
    clamp_fx(tdiv(a * b, SCALE as int))
}

/// The exact fixed-point sum.
pub open spec fn add_fx_spec(a: int, b: int) -> int {
    clamp_fx(a + b)
}

/// The exact fixed-point difference.
pub open spec fn sub_fx_spec(a: int, b: int) -> int {
    clamp_fx(a - b)
}

/// Whether a value is within the representable fixed-point range.
pub open spec fn in_range(x: int) -> bool {
    -(MAX_FX as int) <= x <= MAX_FX as int
}

/// Saturating fixed-point addition.
pub fn add_fx(a: i64, b: i64) -> (r: i64)
    ensures
        r == add_fx_spec(a as int, b as int),
        in_range(r as int),
{
    let s: i128 = a as i128 + b as i128;
    if s > MAX_FX as i128 {
        MAX_FX
    } else if s < -(MAX_FX as i128) {
        -MAX_FX
    } else {
        s as i64
    }
}

/// Saturating fixed-point subtraction.
pub fn sub_fx(a: i64, b: i64) -> (r: i64)
    ensures
        r == sub_fx_spec(a as int, b as int),
        in_range(r as int),
{
    let s: i128 = a as i128 - b as i128;
    if s > MAX_FX as i128 {
        MAX_FX
    } else if s < -(MAX_FX as i128) {
        -MAX_FX
    } else {
        s as i64
    }
}

/// Clamp an `i128` intermediate into the representable range.
pub(crate) fn clamp128(s: i128) -> (r: i64)
    ensures
        r == clamp_fx(s as int),
        in_range(r as int),
{
    if s > MAX_FX as i128 {
        MAX_FX
    } else if s < -(MAX_FX as i128) {
        -MAX_FX
    } else {
        s as i64
    }
}

/// Division of an `i128` by a positive divisor, truncating toward zero.
pub(crate) fn tdiv128(n: i128, d: i128) -> (r: i128)
    requires
        0 < d,
        -0x40000000000000000000000000000000 < n,
    ensures
        r == tdiv(n as int, d as int),
{
    if n >= 0 {
        let m: u128 = n as u128;
        let q: u128 = m / (d as u128);
        assert(q == n as int / d as int) by {
            assert(m == n as int && d as u128 == d as int);
        };
        q as i128
    } else {
        let m: u128 = (-n) as u128;
        let q: u128 = m / (d as u128);
        assert(q == (-(n as int)) / (d as int)) by {
            assert(m == -(n as int) && d as u128 == d as int);
        };
        assert(q <= m) by {
            vstd::arithmetic::div_mod::lemma_div_is_ordered(0, m as int, d as int);
            vstd::arithmetic::div_mod::lemma_fundamental_div_mod(m as int, d as int);
            assert(m as int / d as int <= m as int) by (nonlinear_arith)
                requires 0 < d as int && 0 <= m as int;
        };
        -(q as i128)
    }
}

/// The product of two `i64` values stays strictly inside the `i128` range.
proof fn lemma_i64_product_fits(a: int, b: int)
    requires
        -0x8000000000000000 <= a <= 0x7fffffffffffffff,
        -0x8000000000000000 <= b <= 0x7fffffffffffffff,
    ensures
        -0x40000000000000000000000000000000 < a * b,
        a * b <= 0x40000000000000000000000000000000,
{
    assert(-0x40000000000000000000000000000000 < a * b
        && a * b <= 0x40000000000000000000000000000000) by (nonlinear_arith)
        requires
            -0x8000000000000000 <= a <= 0x7fffffffffffffff,
            -0x8000000000000000 <= b <= 0x7fffffffffffffff,
    ;
}

/// Saturating fixed-point multiplication: `a * b / SCALE`, rounded toward
/// zero.
pub fn mul_fx(a: i64, b: i64) -> (r: i64)
    ensures
        r == mul_fx_spec(a as int, b as int),
        in_range(r as int),
{
    proof {
        lemma_i64_product_fits(a as int, b as int);
    }
    let p: i128 = (a as i128) * (b as i128);
    let q: i128 = tdiv128(p, SCALE as i128);
    clamp128(q)
}

/// Fixed-point division: `a / b` in thousandths (`a * SCALE / b`), rounded
/// toward zero; the divisor must be positive.
pub open spec fn div_fx_spec(a: int, b: int) -> int {
    clamp_fx(tdiv(a * SCALE as int, b))
}

/// Saturating fixed-point division by a positive divisor.
pub fn div_fx(a: i64, b: i64) -> (r: i64)
    requires
        0 < b,
    ensures
        r == div_fx_spec(a as int, b as int),
        in_range(r as int),
{
    proof {
        lemma_i64_product_fits(a as int, SCALE as int);
    }
    let p: i128 = (a as i128) * (SCALE as i128);
    let q: i128 = tdiv128(p, b as i128);
    clamp128(q)
}

/// Euclidean remainder (always in `[0, m)`) for a positive modulus.
pub fn emod_fx(a: i64, m: i64) -> (r: i64)
    requires
        0 < m,
    ensures
        r == (a as int) % (m as int),
        0 <= r < m,
{
    if a >= 0 {
        let r: u64 = (a as u64) % (m as u64);
        assert(r == (a as int) % (m as int)) by {
            assert(a as u64 == a as int && m as u64 == m as int);
        };
        r as i64
    } else {
        let neg: u64 = -(a as i128) as u64;
        let k: u64 = neg % (m as u64);
        proof {
            assert(neg == -(a as int) && m as u64 == m as int);
            let q = (neg as int) / (m as int);
            let mi = m as int;
            vstd::arithmetic::div_mod::lemma_fundamental_div_mod(neg as int, mi);
            assert((-q) * mi == -(q * mi)) by (nonlinear_arith);
            assert((-q - 1) * mi == -(q * mi) - mi) by (nonlinear_arith);
            if k == 0 {
                vstd::arithmetic::div_mod::lemma_fundamental_div_mod_converse_mod(
                    a as int, mi, -q, 0);
            } else {
                vstd::arithmetic::div_mod::lemma_fundamental_div_mod_converse_mod(
                    a as int, mi, -q - 1, mi - k);
            }
        }
        if k == 0 {
            0
        } else {
            m - k as i64
        }
    }
}

/// Squaring is monotone, and `2^64` squared tops every `u128`.
proof fn lemma_square_bounds(h: int, x: int)
    requires
        h == 0x10000000000000000,
        0 <= x < 0x100000000000000000000000000000000,
    ensures
        h * h > x,
{
    assert(h * h > x) by (nonlinear_arith)
        requires
            h == 0x10000000000000000,
            x < 0x100000000000000000000000000000000,
    ;
}

/// The square of anything below `2^64` fits in a `u128`.
proof fn lemma_square_fits(m: int)
    requires
        0 <= m < 0x10000000000000000,
    ensures
        m * m < 0x100000000000000000000000000000000,
{
    assert(m * m < 0x100000000000000000000000000000000) by (nonlinear_arith)
        requires
            0 <= m < 0x10000000000000000,
    ;
}

/// Halving a gap of at least two lands strictly between its ends.
proof fn lemma_half_gap(lo: int, hi: int)
    requires
        lo + 2 <= hi,
    ensures
        lo < lo + (hi - lo) / 2 < hi,
{
    assert(1 <= (hi - lo) / 2 < hi - lo) by (nonlinear_arith)
        requires
            2 <= hi - lo,
    ;
}

/// Integer square root of a `u128`, rounded down.
pub fn isqrt(x: u128) -> (r: u64)
    ensures
        (r as int) * (r as int) <= x as int,
        (r as int + 1) * (r as int + 1) > x as int,
{
    let mut lo: u128 = 0;
    let mut hi: u128 = 0x10000000000000000;
    proof {
        lemma_square_bounds(hi as int, x as int);
    }
    while lo + 1 < hi
        invariant
            0 <= lo < hi <= 0x10000000000000000,
            (lo as int) * (lo as int) <= x as int,
            (hi as int) * (hi as int) > x as int,
        decreases hi - lo,
    {
        proof {
            lemma_half_gap(lo as int, hi as int);
        }
        let mid: u128 = lo + (hi - lo) / 2;
        proof {
            lemma_square_fits(mid as int);
        }
        if mid * mid <= x {
            lo = mid;
        } else {
            hi = mid;
        }
    }
    lo as u64
}

} // verus!
