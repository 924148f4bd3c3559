//! Fixed-point circular functions. These are polynomial approximations
//! of the real functions — the renderer needs angles only for texture
//! coordinates and for converting a field of view to a viewport size —
//! and each is specified exactly as the polynomial it computes.

use crate::fx::{fx_add, fx_div, fx_div_s, fx_mul, fx_mul_s, fx_sqrt, fx_sqrt_s, fx_sub, sat64};
use vstd::prelude::*;

verus! {

/// Pi in Q47.16.
pub const FX_PI: i64 = 205887;

/// Two pi in Q47.16.
pub const FX_TAU: i64 = 411775;

/// Four pi in Q47.16.
pub const FX_FOUR_PI: i64 = 823550;

/// Pi / 2 in Q47.16.
pub const FX_HALF_PI: i64 = 102944;

/// Pi / 4 in Q47.16.
pub const FX_QUARTER_PI: i64 = 51472;

/// 0.273 in Q47.16, the tuning constant of the arctangent approximation.
pub const ATAN_C: i64 = 17892;

/// ln 2 in Q47.16.
pub const FX_LN2: i64 = 45426;

/// Taylor approximation of the sine, meant for arguments in [0, pi/2]:
/// x - x^3/6 + x^5/120.
#[verifier::opaque]
pub open spec fn fx_sin_s(x: int) -> int {
    let x2 = fx_mul_s(x, x);
    let x3 = fx_mul_s(x2, x);
    let x5 = fx_mul_s(x3, x2);
    sat64(sat64(x - fx_div_s(x3, 393216)) + fx_div_s(x5, 7864320))
}

/// Taylor approximation of the cosine, meant for arguments in [0, pi/2]:
/// 1 - x^2/2 + x^4/24 - x^6/720.
#[verifier::opaque]
pub open spec fn fx_cos_s(x: int) -> int {
    let x2 = fx_mul_s(x, x);
    let x4 = fx_mul_s(x2, x2);
    let x6 = fx_mul_s(x4, x2);
    sat64(
        sat64(sat64(65536 - fx_div_s(x2, 131072)) + fx_div_s(x4, 1572864)) - fx_div_s(
            x6,
            47185920,
        ),
    )
}

pub fn fx_sin(x: i64) -> (r: i64)
    ensures
        r as int == fx_sin_s(x as int),
{
    proof {
        reveal(fx_sin_s);
    }
    let x2 = fx_mul(x, x);
    let x3 = fx_mul(x2, x);
    let x5 = fx_mul(x3, x2);
    fx_add(fx_sub(x, fx_div(x3, 393216)), fx_div(x5, 7864320))
}

pub fn fx_cos(x: i64) -> (r: i64)
    ensures
        r as int == fx_cos_s(x as int),
{
    proof {
        reveal(fx_cos_s);
    }
    let x2 = fx_mul(x, x);
    let x4 = fx_mul(x2, x2);
    let x6 = fx_mul(x4, x2);
    fx_sub(fx_add(fx_sub(65536, fx_div(x2, 131072)), fx_div(x4, 1572864)), fx_div(x6, 47185920))
}

/// Tangent as the quotient of the two approximations; saturates near
/// pi/2, where the cosine approximation reaches zero.
pub open spec fn fx_tan_s(x: int) -> int {
    fx_div_s(fx_sin_s(x), fx_cos_s(x))
}

pub fn fx_tan(x: i64) -> (r: i64)
    ensures
        r as int == fx_tan_s(x as int),
{
    fx_div(fx_sin(x), fx_cos(x))
}

/// Quadratic approximation of the arctangent, meant for arguments in
/// [0, 1]: (pi/4) z + 0.273 z (1 - z).
#[verifier::opaque]
pub open spec fn fx_atan_unit_s(z: int) -> int {
    sat64(
        fx_mul_s(z, FX_QUARTER_PI as int) + fx_mul_s(fx_mul_s(ATAN_C as int, z), sat64(65536 - z)),
    )
}

pub fn fx_atan_unit(z: i64) -> (r: i64)
    ensures
        r as int == fx_atan_unit_s(z as int),
{
    proof {
        reveal(fx_atan_unit_s);
    }
    fx_add(fx_mul(z, FX_QUARTER_PI), fx_mul(fx_mul(ATAN_C, z), fx_sub(65536, z)))
}

/// Absolute value at the spec level, saturated into the scalar range.
pub open spec fn abs_sat_s(x: int) -> int {
    if x < 0 {
        sat64(-x)
    } else {
        x
    }
}

/// Full-plane arctangent of y/x, in (-pi, pi]; zero when both arguments
/// are zero.
#[verifier::opaque]
pub open spec fn fx_atan2_s(y: int, x: int) -> int {
    let ay = abs_sat_s(y);
    let ax = abs_sat_s(x);
    let base = if ay <= ax {
        if ax == 0 {
            0
        } else {
            fx_atan_unit_s(fx_div_s(ay, ax))
        }
    } else {
        sat64(FX_HALF_PI - fx_atan_unit_s(fx_div_s(ax, ay)))
    };
    let mag = if x >= 0 {
        base
    } else {
        sat64(FX_PI - base)
    };
    if y >= 0 {
        mag
    } else {
        sat64(-mag)
    }
}

pub fn fx_atan2(y: i64, x: i64) -> (r: i64)
    ensures
        r as int == fx_atan2_s(y as int, x as int),
{
    proof {
        reveal(fx_atan2_s);
    }
    let ay = if y < 0 {
        fx_sub(0, y)
    } else {
        y
    };
    let ax = if x < 0 {
        fx_sub(0, x)
    } else {
        x
    };
    let base = if ay <= ax {
        if ax == 0 {
            0
        } else {
            fx_atan_unit(fx_div(ay, ax))
        }
    } else {
        fx_sub(FX_HALF_PI, fx_atan_unit(fx_div(ax, ay)))
    };
    let mag = if x >= 0 {
        base
    } else {
        fx_sub(FX_PI, base)
    };
    if y >= 0 {
        mag
    } else {
        fx_sub(0, mag)
    }
}

/// Arccosine in [0, pi], with the argument clamped into [-1, 1] first.
#[verifier::opaque]
pub open spec fn fx_acos_s(x: int) -> int {
    let c = if x < -65536 {
        -65536
    } else if x > 65536 {
        65536
    } else {
        x
    };
    let s = fx_sqrt_s(sat64(65536 - fx_mul_s(c, c)));
    fx_atan2_s(s, c)
}

pub fn fx_acos(x: i64) -> (r: i64)
    ensures
        r as int == fx_acos_s(x as int),
{
    proof {
        reveal(fx_acos_s);
    }
    let c = if x < -65536 {
        -65536
    } else if x > 65536 {
        65536
    } else {
        x
    };
    let s = fx_sqrt(fx_sub(65536, fx_mul(c, c)));
    fx_atan2(s, c)
}

/// The series core of the negated logarithm, meant for arguments in
/// [1/2, 2]: 2 atanh((1 - u)/(1 + u)), truncated after the fifth power.
#[verifier::opaque]
pub open spec fn neg_ln_core_s(u: int) -> int {
    let z = fx_div_s(sat64(65536 - u), sat64(65536 + u));
    let z2 = fx_mul_s(z, z);
    let z3 = fx_mul_s(z2, z);
    let z5 = fx_mul_s(z3, z2);
    sat64(2 * sat64(sat64(z + fx_div_s(z3, 196608)) + fx_div_s(z5, 327680)))
}

/// The negated natural logarithm of a scalar in (0, 1]: halve into
/// [1/2, 1] collecting ln 2 per doubling, then the series core.
/// Nonpositive arguments saturate, as the logarithm diverges there.
pub open spec fn fx_neg_ln_s(u: int) -> int
    decreases 65536 - u,
{
    if u <= 0 {
        i64::MAX as int
    } else if u >= 32768 {
        neg_ln_core_s(u)
    } else {
        sat64(FX_LN2 + fx_neg_ln_s(2 * u))
    }
}

pub fn fx_neg_ln(u: i64) -> (r: i64)
    ensures
        r as int == fx_neg_ln_s(u as int),
    decreases 65536 - u,
{
    proof {
        reveal(neg_ln_core_s);
    }
    if u <= 0 {
        i64::MAX
    } else if u >= 32768 {
        let z = fx_div(fx_sub(65536, u), fx_add(65536, u));
        let z2 = fx_mul(z, z);
        let z3 = fx_mul(z2, z);
        let z5 = fx_mul(z3, z2);
        fx_mul(131072, fx_add(fx_add(z, fx_div(z3, 196608)), fx_div(z5, 327680)))
    } else {
        fx_add(FX_LN2, fx_neg_ln(u + u))
    }
}

} // verus!
