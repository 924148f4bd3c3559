//! Saturating Q47.16 fixed-point scalars.
//!
//! A scalar value v is carried as the `i64` holding `v * 65536` rounded
//! toward zero. Every operation is total: results that leave the `i64`
//! range saturate at `i64::MIN` / `i64::MAX`, which play the role that
//! the infinities play in a floating-point renderer (a division by zero
//! saturates, and a saturated bound degenerates an interval in the slab
//! test exactly as an infinite one would).

use vstd::arithmetic::div_mod::{
    lemma_div_is_ordered, lemma_div_nonincreasing, lemma_div_pos_is_pos,
};
use vstd::prelude::*;

verus! {

/// Raw representation of the scalar one: the fixed-point scale factor.
pub const FX_ONE: i64 = 65536;

/// Clamp a mathematical integer into the `i64` range.
pub open spec fn sat64(x: int) -> int {
    if x > i64::MAX as int {
        i64::MAX as int
    } else if x < i64::MIN as int {
        i64::MIN as int
    } else {
        x
    }
}

/// Division rounding toward zero, the semantics of machine division
/// (meaningful for d != 0).
pub open spec fn tdiv(x: int, d: int) -> int {
    if x == 0 {
        0
    } else if x > 0 && d > 0 {
        x / d
    } else if x < 0 && d < 0 {
        (x * -1) / (d * -1)
    } else if x < 0 {
        ((x * -1) / d) * -1
    } else {
        (x / (d * -1)) * -1
    }
}

/// The value of a fixed-point product.
pub open spec fn fx_mul_s(a: int, b: int) -> int {
    sat64(tdiv(a * b, FX_ONE as int))
}

/// The value of a fixed-point quotient. A zero divisor saturates in the
/// direction of the dividend's sign.
pub open spec fn fx_div_s(a: int, b: int) -> int {
    if b == 0 {
        if a >= 0 {
            i64::MAX as int
        } else {
            i64::MIN as int
        }
    } else {
        sat64(tdiv(a * (FX_ONE as int), b))
    }
}

/// Floor of the square root of a nonnegative integer.
pub open spec fn isqrt(v: int) -> int {
    choose|r: int| 0 <= r && #[trigger] (r * r) <= v && (r + 1) * (r + 1) > v
}

/// The value of a fixed-point square root: the raw result approximates
/// sqrt(x / 65536) * 65536 = sqrt(x * 65536). Negative inputs give zero.
pub open spec fn fx_sqrt_s(x: int) -> int {
    if x <= 0 {
        0
    } else {
        isqrt(x * (FX_ONE as int))
    }
}

pub broadcast proof fn lemma_isqrt_exists(v: int)
    requires
        0 <= v,
    ensures
        0 <= #[trigger] isqrt(v) && isqrt(v) * isqrt(v) <= v && (isqrt(v) + 1) * (isqrt(v) + 1)
            > v,
    decreases v,
{
    if v == 0 {
        assert(0 * 0 <= 0 && (0 + 1) * (0 + 1) > 0) by (nonlinear_arith);
        assert(exists|r: int| 0 <= r && #[trigger] (r * r) <= v && (r + 1) * (r + 1) > v);
    } else {
        lemma_isqrt_exists(v - 1);
        let p = isqrt(v - 1);
        if (p + 1) * (p + 1) > v {
            assert(0 <= p && p * p <= v && (p + 1) * (p + 1) > v);
        } else {
            assert((p + 1) * (p + 1) <= v);
            assert((p + 2) * (p + 2) > v) by (nonlinear_arith)
                requires
                    0 <= p && p * p <= v - 1 && (p + 1) * (p + 1) > v - 1,
            ;
            assert(0 <= p + 1 && (p + 1) * (p + 1) <= v && ((p + 1) + 1) * ((p + 1) + 1) > v);
        }
    }
}

/// The two defining inequalities pin the floor square root uniquely.
pub proof fn lemma_isqrt_unique(v: int, r: int)
    requires
        0 <= v,
        0 <= r,
        r * r <= v,
        (r + 1) * (r + 1) > v,
    ensures
        r == isqrt(v),
{
    lemma_isqrt_exists(v);
    let s = isqrt(v);
    if r < s {
        assert((r + 1) * (r + 1) <= s * s) by (nonlinear_arith)
            requires
                0 <= r && r < s,
        ;
    }
    if s < r {
        assert((s + 1) * (s + 1) <= r * r) by (nonlinear_arith)
            requires
                0 <= s && s < r,
        ;
    }
}

/// Truncated division never grows the magnitude when the divisor is at least one.
proof fn lemma_tdiv_magnitude(x: int, d: int)
    requires
        d >= 1,
    ensures
        x >= 0 ==> 0 <= tdiv(x, d) <= x,
        x < 0 ==> x <= tdiv(x, d) <= 0,
{
    if x > 0 {
        lemma_div_pos_is_pos(x, d);
        lemma_div_nonincreasing(x, d);
    } else if x < 0 {
        lemma_div_pos_is_pos(x * -1, d);
        lemma_div_nonincreasing(x * -1, d);
    }
}

/// Truncated division is monotone in the dividend for positive divisors.
pub proof fn lemma_tdiv_mono(a1: int, a2: int, d: int)
    requires
        a1 <= a2,
        d > 0,
    ensures
        tdiv(a1, d) <= tdiv(a2, d),
{
    if a1 >= 0 {
        lemma_div_is_ordered(a1, a2, d);
        if a1 > 0 {
            lemma_div_pos_is_pos(a1, d);
        }
        if a2 > 0 {
            lemma_div_pos_is_pos(a2, d);
        }
    } else if a2 <= 0 {
        lemma_div_is_ordered(a2 * -1, a1 * -1, d);
        if a2 < 0 {
            lemma_div_pos_is_pos(a2 * -1, d);
        }
    } else {
        lemma_div_pos_is_pos(a1 * -1, d);
        lemma_div_pos_is_pos(a2, d);
    }
}

/// Saturating fixed-point division is monotone in the dividend when the
/// divisor is nonnegative, antitone when it is negative.
pub proof fn lemma_fx_div_mono(a1: int, a2: int, d: int)
    requires
        a1 <= a2,
    ensures
        d >= 0 ==> fx_div_s(a1, d) <= fx_div_s(a2, d),
        d < 0 ==> fx_div_s(a2, d) <= fx_div_s(a1, d),
{
    if d > 0 {
        lemma_tdiv_mono(a1 * 65536, a2 * 65536, d);
    } else if d < 0 {
        assert(tdiv(a2 * 65536, d) <= tdiv(a1 * 65536, d)) by {
            lemma_tdiv_neg_flip(a1 * 65536, d);
            lemma_tdiv_neg_flip(a2 * 65536, d);
            lemma_tdiv_mono(a1 * 65536, a2 * 65536, d * -1);
        }
    }
}

/// Division by a negative divisor is the negated division by its
/// magnitude.
proof fn lemma_tdiv_neg_flip(a: int, d: int)
    requires
        d < 0,
    ensures
        tdiv(a, d) == -tdiv(a, d * -1),
{
}

/// Truncated division of an exact multiple recovers the factor.
pub proof fn lemma_tdiv_multiple(k: int, m: int)
    requires
        m > 0,
    ensures
        tdiv(k * m, m) == k,
{
    if k > 0 {
        vstd::arithmetic::div_mod::lemma_div_by_multiple(k, m);
    } else if k < 0 {
        vstd::arithmetic::div_mod::lemma_div_by_multiple(-k, m);
        assert((k * m) * -1 == (-k) * m) by (nonlinear_arith);
        assert(k * m < 0) by (nonlinear_arith)
            requires
                k < 0 && m > 0,
        ;
    } else {
        assert(k * m == 0) by (nonlinear_arith)
            requires
                k == 0,
        ;
    }
}

/// The product of two `i64` values fits comfortably in an `i128`.
proof fn lemma_i64_product_fits(a: int, b: int)
    requires
        i64::MIN <= a <= i64::MAX,
        i64::MIN <= b <= i64::MAX,
    ensures
        i128::MIN as int <= a * b <= i128::MAX as int,
{
    assert(-0x40000000000000000000000000000000 <= a * b <= 0x40000000000000000000000000000000)
        by (nonlinear_arith)
        requires
            -0x8000000000000000 <= a <= 0x7FFFFFFFFFFFFFFF,
            -0x8000000000000000 <= b <= 0x7FFFFFFFFFFFFFFF,
    ;
}

fn sat_i128(q: i128) -> (r: i64)
    ensures
        r as int == sat64(q as int),
{
    if q > i64::MAX as i128 {
        i64::MAX
    } else if q < i64::MIN as i128 {
        i64::MIN
    } else {
        q as i64
    }
}

/// Saturating fixed-point addition.
pub fn fx_add(a: i64, b: i64) -> (r: i64)
    ensures
        r as int == sat64(a + b),
{
    sat_i128(a as i128 + b as i128)
}

/// Saturating fixed-point subtraction.
pub fn fx_sub(a: i64, b: i64) -> (r: i64)
    ensures
        r as int == sat64(a - b),
{
    sat_i128(a as i128 - b as i128)
}

/// Saturating fixed-point negation.
pub fn fx_neg(a: i64) -> (r: i64)
    ensures
        r as int == sat64(-(a as int)),
{
    if a == i64::MIN {
        i64::MAX
    } else {
        -a
    }
}

/// Saturating fixed-point absolute value.
pub fn fx_abs(a: i64) -> (r: i64)
    ensures
        r as int == if a < 0 {
            sat64(-(a as int))
        } else {
            a as int
        },
{
    if a < 0 {
        fx_neg(a)
    } else {
        a
    }
}

pub fn fx_min(a: i64, b: i64) -> (r: i64)
    ensures
        r as int == if a <= b {
            a as int
        } else {
            b as int
        },
{
    if a <= b {
        a
    } else {
        b
    }
}

pub fn fx_max(a: i64, b: i64) -> (r: i64)
    ensures
        r as int == if a >= b {
            a as int
        } else {
            b as int
        },
{
    if a >= b {
        a
    } else {
        b
    }
}

/// Saturating fixed-point multiplication.
pub fn fx_mul(a: i64, b: i64) -> (r: i64)
    ensures
        r as int == fx_mul_s(a as int, b as int),
{
    proof {
        lemma_i64_product_fits(a as int, b as int);
    }
    let p: i128 = (a as i128) * (b as i128);
    proof {
        lemma_tdiv_magnitude(p as int, FX_ONE as int);
    }
    let q: i128 = match p.checked_div(FX_ONE as i128) {
        Some(q) => q,
        None => 0,
    };
    sat_i128(q)
}

/// Saturating fixed-point division; a zero divisor saturates.
pub fn fx_div(a: i64, b: i64) -> (r: i64)
    ensures
        r as int == fx_div_s(a as int, b as int),
{
    if b == 0 {
        if a >= 0 {
            i64::MAX
        } else {
            i64::MIN
        }
    } else {
        proof {
            lemma_i64_product_fits(a as int, FX_ONE as int);
        }
        let p: i128 = (a as i128) * (FX_ONE as i128);
        proof {
            if b > 0 {
                lemma_tdiv_magnitude(p as int, b as int);
            } else {
                lemma_tdiv_magnitude(p as int, -(b as int));
            }
        }
        let q: i128 = match p.checked_div(b as i128) {
            Some(q) => q,
            None => 0,
        };
        sat_i128(q)
    }
}

/// Half of a scalar, rounded toward zero.
pub fn fx_half(a: i64) -> (r: i64)
    ensures
        r as int == tdiv(a as int, 2),
{
    match a.checked_div(2) {
        Some(q) => q,
        None => 0,
    }
}

/// Round a scalar toward zero to an integer (not a fixed-point value).
pub fn fx_trunc(a: i64) -> (r: i64)
    ensures
        r as int == tdiv(a as int, 65536),
{
    match a.checked_div(FX_ONE) {
        Some(q) => q,
        None => 0,
    }
}

/// Round a scalar down to an integer (not a fixed-point value): the
/// mathematical floor of a / 65536.
pub fn fx_floor(a: i64) -> (r: i64)
    ensures
        r as int == (a as int) / (FX_ONE as int),
{
    match a.checked_div_euclid(FX_ONE) {
        Some(q) => q,
        None => 0,
    }
}

/// Convert a small integer to the scalar with that value.
pub fn fx_from_int(n: i64) -> (r: i64)
    ensures
        r as int == sat64(n * (FX_ONE as int)),
{
    proof {
        lemma_i64_product_fits(n as int, FX_ONE as int);
    }
    let p: i128 = (n as i128) * (FX_ONE as i128);
    sat_i128(p)
}

/// Floor square root of a nonnegative integer, by bisection.
fn isqrt_u128(v: u128) -> (r: u128)
    requires
        v < 0x100000000000000000000u128,
    ensures
        r * r <= v,
        (r + 1) * (r + 1) > v,
        r < 0x10000000000u128,
    decreases v,
{
    let mut lo: u128 = 0;
    let mut hi: u128 = 0x10000000000u128;
    proof {
        assert((0x10000000000u128 as int) * (0x10000000000u128 as int)
            == 0x100000000000000000000u128 as int) by (nonlinear_arith);
    }
    while lo + 1 < hi
        invariant
            lo < hi,
            hi <= 0x10000000000u128,
            lo * lo <= v,
            hi * hi > v,
        decreases hi - lo,
    {
        let mid: u128 = lo + (hi - lo) / 2;
        proof {
            assert(mid * mid <= 0x10000000000u128 * 0x10000000000u128) by (nonlinear_arith)
                requires
                    0 <= mid <= 0x10000000000u128,
            ;
        }
        if mid * mid <= v {
            lo = mid;
        } else {
            hi = mid;
        }
    }
    lo
}

/// Floor square root of a 32-bit count, by bisection.
pub fn isqrt_u32(v: u32) -> (r: u32)
    ensures
        r as int == isqrt(v as int),
        r * r <= v,
    decreases v,
{
    let mut lo: u64 = 0;
    let mut hi: u64 = 0x10000;
    proof {
        assert((0x10000int * 0x10000int) == 0x100000000int) by (nonlinear_arith);
    }
    while lo + 1 < hi
        invariant
            lo < hi,
            hi <= 0x10000,
            lo * lo <= v,
            hi * hi > v,
        decreases hi - lo,
    {
        let mid: u64 = lo + (hi - lo) / 2;
        proof {
            assert(mid * mid <= 0x10000u64 * 0x10000u64) by (nonlinear_arith)
                requires
                    0 <= mid <= 0x10000u64,
            ;
        }
        if mid * mid <= v as u64 {
            lo = mid;
        } else {
            hi = mid;
        }
    }
    proof {
        lemma_isqrt_unique(v as int, lo as int);
    }
    lo as u32
}

/// Saturating fixed-point square root; negative inputs give zero.
pub fn fx_sqrt(x: i64) -> (r: i64)
    ensures
        r as int == fx_sqrt_s(x as int),
{
    if x <= 0 {
        0
    } else {
        proof {
            assert((x as int) * (FX_ONE as int) < 0x100000000000000000000) by (nonlinear_arith)
                requires
                    0 < x <= i64::MAX && FX_ONE == 65536,
            ;
        }
        let v: u128 = (x as u128) * (FX_ONE as u128);
        let r = isqrt_u128(v);
        proof {
            lemma_isqrt_unique(v as int, r as int);
        }
        r as i64
    }
}

} // verus!
