//! Three-component vectors of fixed-point scalars, used as points,
//! directions and colors. Every operation mirrors a spec function that
//! states its exact value, saturation and truncation included.

use crate::fx::{
    fx_add, fx_div, fx_div_s, fx_min, fx_mul, fx_mul_s, fx_sqrt, fx_sqrt_s, fx_sub, sat64, FX_ONE,
};
use crate::rng::Sampler;
use vstd::prelude::*;

verus! {

#[derive(Clone, Copy, Debug, PartialEq, Eq, Structural)]
pub struct Vec3 {
    pub x: i64,
    pub y: i64,
    pub z: i64,
}

pub type Point3 = Vec3;

/// Build a vector from three mathematical integers, saturating each
/// component into the scalar range.
pub open spec fn v3(x: int, y: int, z: int) -> Vec3 {
    Vec3 { x: sat64(x) as i64, y: sat64(y) as i64, z: sat64(z) as i64 }
}

pub open spec fn v_add_s(a: Vec3, b: Vec3) -> Vec3 {
    v3(a.x + b.x, a.y + b.y, a.z + b.z)
}

pub open spec fn v_sub_s(a: Vec3, b: Vec3) -> Vec3 {
    v3(a.x - b.x, a.y - b.y, a.z - b.z)
}

pub open spec fn v_neg_s(a: Vec3) -> Vec3 {
    v3(-a.x, -a.y, -a.z)
}

pub open spec fn v_scale_s(a: Vec3, t: int) -> Vec3 {
    v3(fx_mul_s(a.x as int, t), fx_mul_s(a.y as int, t), fx_mul_s(a.z as int, t))
}

pub open spec fn v_div_scalar_s(a: Vec3, t: int) -> Vec3 {
    v3(fx_div_s(a.x as int, t), fx_div_s(a.y as int, t), fx_div_s(a.z as int, t))
}

/// Componentwise product, the attenuation combination for colors.
pub open spec fn v_mul_s(a: Vec3, b: Vec3) -> Vec3 {
    v3(
        fx_mul_s(a.x as int, b.x as int),
        fx_mul_s(a.y as int, b.y as int),
        fx_mul_s(a.z as int, b.z as int),
    )
}

pub open spec fn dot_s(a: Vec3, b: Vec3) -> int {
    sat64(
        sat64(fx_mul_s(a.x as int, b.x as int) + fx_mul_s(a.y as int, b.y as int)) + fx_mul_s(
            a.z as int,
            b.z as int,
        ),
    )
}

pub open spec fn cross_s(a: Vec3, b: Vec3) -> Vec3 {
    v3(
        fx_mul_s(a.y as int, b.z as int) - fx_mul_s(a.z as int, b.y as int),
        fx_mul_s(a.z as int, b.x as int) - fx_mul_s(a.x as int, b.z as int),
        fx_mul_s(a.x as int, b.y as int) - fx_mul_s(a.y as int, b.x as int),
    )
}

pub open spec fn length_s(a: Vec3) -> int {
    fx_sqrt_s(dot_s(a, a))
}

pub open spec fn unit_s(a: Vec3) -> Vec3 {
    v_div_scalar_s(a, length_s(a))
}

impl Vec3 {
    pub fn new(x: i64, y: i64, z: i64) -> (r: Vec3)
        ensures
            r == (Vec3 { x, y, z }),
    {
        Vec3 { x, y, z }
    }

    pub fn add(self, o: Vec3) -> (r: Vec3)
        ensures
            r == v_add_s(self, o),
    {
        Vec3 { x: fx_add(self.x, o.x), y: fx_add(self.y, o.y), z: fx_add(self.z, o.z) }
    }

    pub fn sub(self, o: Vec3) -> (r: Vec3)
        ensures
            r == v_sub_s(self, o),
    {
        Vec3 { x: fx_sub(self.x, o.x), y: fx_sub(self.y, o.y), z: fx_sub(self.z, o.z) }
    }

    pub fn neg(self) -> (r: Vec3)
        ensures
            r == v_neg_s(self),
    {
        Vec3 { x: fx_sub(0, self.x), y: fx_sub(0, self.y), z: fx_sub(0, self.z) }
    }

    /// Multiply by a scalar.
    pub fn scale(self, t: i64) -> (r: Vec3)
        ensures
            r == v_scale_s(self, t as int),
    {
        Vec3 { x: fx_mul(self.x, t), y: fx_mul(self.y, t), z: fx_mul(self.z, t) }
    }

    /// Divide by a scalar.
    pub fn div(self, t: i64) -> (r: Vec3)
        ensures
            r == v_div_scalar_s(self, t as int),
    {
        Vec3 { x: fx_div(self.x, t), y: fx_div(self.y, t), z: fx_div(self.z, t) }
    }

    /// Componentwise product, used to attenuate colors.
    pub fn mul_v(self, o: Vec3) -> (r: Vec3)
        ensures
            r == v_mul_s(self, o),
    {
        Vec3 { x: fx_mul(self.x, o.x), y: fx_mul(self.y, o.y), z: fx_mul(self.z, o.z) }
    }

    pub fn dot(self, o: Vec3) -> (r: i64)
        ensures
            r as int == dot_s(self, o),
    {
        fx_add(fx_add(fx_mul(self.x, o.x), fx_mul(self.y, o.y)), fx_mul(self.z, o.z))
    }

    pub fn length_squared(self) -> (r: i64)
        ensures
            r as int == dot_s(self, self),
    {
        self.dot(self)
    }

    pub fn length(self) -> (r: i64)
        ensures
            r as int == length_s(self),
    {
        fx_sqrt(self.length_squared())
    }

    pub fn unit(self) -> (r: Vec3)
        ensures
            r == unit_s(self),
    {
        self.div(self.length())
    }
}

pub fn cross(a: &Vec3, b: &Vec3) -> (r: Vec3)
    ensures
        r == cross_s(*a, *b),
{
    Vec3 {
        x: fx_sub(fx_mul(a.y, b.z), fx_mul(a.z, b.y)),
        y: fx_sub(fx_mul(a.z, b.x), fx_mul(a.x, b.z)),
        z: fx_sub(fx_mul(a.x, b.y), fx_mul(a.y, b.x)),
    }
}

/// Mirror direction: v reflected about the normal n.
pub open spec fn reflect_s(v: Vec3, n: Vec3) -> Vec3 {
    v_sub_s(v, v_scale_s(n, sat64(dot_s(v, n) + dot_s(v, n))))
}

pub fn reflect(v: &Vec3, n: &Vec3) -> (r: Vec3)
    ensures
        r == reflect_s(*v, *n),
{
    let d = v.dot(*n);
    v.sub(n.scale(fx_add(d, d)))
}

/// Refracted direction by Snell's law, for a unit incoming direction uv,
/// unit normal n, and refraction ratio eta.
pub open spec fn refract_s(uv: Vec3, n: Vec3, eta: int) -> Vec3 {
    let cos_theta = if dot_s(v_neg_s(uv), n) <= FX_ONE as int {
        dot_s(v_neg_s(uv), n)
    } else {
        FX_ONE as int
    };
    let r_out_perp = v_scale_s(v_add_s(uv, v_scale_s(n, cos_theta)), eta);
    let k = sat64(FX_ONE - dot_s(r_out_perp, r_out_perp));
    let k_abs = if k < 0 {
        sat64(-k)
    } else {
        k
    };
    let r_out_parallel = v_scale_s(n, sat64(-fx_sqrt_s(k_abs)));
    v_add_s(r_out_perp, r_out_parallel)
}

pub fn refract(uv: &Vec3, n: &Vec3, eta: i64) -> (r: Vec3)
    ensures
        r == refract_s(*uv, *n, eta as int),
{
    let cos_theta = fx_min(uv.neg().dot(*n), FX_ONE);
    let r_out_perp = uv.add(n.scale(cos_theta)).scale(eta);
    let k = fx_sub(FX_ONE, r_out_perp.length_squared());
    let k_abs = if k < 0 {
        fx_sub(0, k)
    } else {
        k
    };
    let r_out_parallel = n.scale(fx_sub(0, fx_sqrt(k_abs)));
    r_out_perp.add(r_out_parallel)
}

/// Refraction at a matched index bends nothing: a head-on unit ray
/// crossing an interface with refraction ratio one keeps its direction
/// exactly.
pub proof fn lemma_refract_matched_head_on()
    ensures
        refract_s(
            Vec3 { x: 0, y: 0, z: -65536i64 },
            Vec3 { x: 0, y: 0, z: 65536 },
            65536,
        ) == (Vec3 { x: 0, y: 0, z: -65536i64 }),
{
    let uv = Vec3 { x: 0, y: 0, z: -65536i64 };
    let n = Vec3 { x: 0, y: 0, z: 65536i64 };
    crate::fx::lemma_tdiv_multiple(65536, 65536);
    crate::fx::lemma_tdiv_multiple(-65536, 65536);
    assert(65536int * 65536int == 65536 * 65536) by (nonlinear_arith);
    assert((-65536int) * 65536int == (-65536) * 65536) by (nonlinear_arith);
    assert(dot_s(v_neg_s(uv), n) == 65536);
    let r_out_perp = v_scale_s(v_add_s(uv, v_scale_s(n, 65536)), 65536);
    assert(v_scale_s(n, 65536) == n);
    assert(v_add_s(uv, n) == (Vec3 { x: 0, y: 0, z: 0 }));
    assert(r_out_perp == (Vec3 { x: 0, y: 0, z: 0 }));
    assert(dot_s(r_out_perp, r_out_perp) == 0);
    crate::fx::lemma_isqrt_unique(65536int * 65536int, 65536int);
    assert(fx_sqrt_s(65536) == 65536);
    assert(v_scale_s(n, -65536) == uv);
}

/// A vector's dot product with itself is nonnegative.
pub proof fn lemma_dot_self_nonneg(v: Vec3)
    ensures
        dot_s(v, v) >= 0,
{
    lemma_square_term_nonneg(v.x as int);
    lemma_square_term_nonneg(v.y as int);
    lemma_square_term_nonneg(v.z as int);
}

proof fn lemma_square_term_nonneg(x: int)
    ensures
        fx_mul_s(x, x) >= 0,
{
    assert(x * x >= 0) by (nonlinear_arith);
    if x * x > 0 {
        vstd::arithmetic::div_mod::lemma_div_pos_is_pos(x * x, 65536);
    }
}

impl Vec3 {
    /// A vector of length at most one, drawn by rejection from the cube;
    /// after a bounded number of tries a fixed interior point is used.
    pub fn random_in_unit_sphere(s: &mut Sampler) -> (r: Vec3)
        ensures
            1024 <= dot_s(r, r) < FX_ONE,
    {
        let mut tries: u32 = 0;
        while tries < 64
            invariant
                tries <= 64,
            decreases 64 - tries,
        {
            let p = Vec3 { x: s.symmetric(), y: s.symmetric(), z: s.symmetric() };
            let ls = p.length_squared();
            if 1024 <= ls && ls < FX_ONE {
                return p;
            }
            tries = tries + 1;
        }
        let fallback = Vec3 { x: 0, y: 0, z: 32768 };
        proof {
            assert((32768int * 32768int) / 65536int == 16384int) by (nonlinear_arith);
        }
        fallback
    }

    /// A direction of approximately unit length: a rejection-sampled
    /// interior vector, normalized.
    pub fn random_unit_vector(s: &mut Sampler) -> (r: Vec3)
        ensures
            exists|p: Vec3| 1024 <= #[trigger] dot_s(p, p) < FX_ONE && r == unit_s(p),
    {
        let p = Self::random_in_unit_sphere(s);
        let u = p.unit();
        proof {
            assert(1024 <= dot_s(p, p) < FX_ONE && u == unit_s(p));
        }
        u
    }
}

/// A point of the unit disk in the xy-plane, drawn by rejection.
pub fn random_in_unit_disk(s: &mut Sampler) -> (r: Vec3)
    ensures
        dot_s(r, r) < FX_ONE,
        r.z == 0,
{
    let mut tries: u32 = 0;
    while tries < 64
        invariant
            tries <= 64,
        decreases 64 - tries,
    {
        let p = Vec3 { x: s.symmetric(), y: s.symmetric(), z: 0 };
        let ls = p.length_squared();
        if ls < FX_ONE {
            return p;
        }
        tries = tries + 1;
    }
    let fallback = Vec3 { x: 0, y: 0, z: 0 };
    assert(dot_s(fallback, fallback) == 0);
    fallback
}

/// A cosine-weighted direction about +z: a uniform disk point lifted to
/// the upper hemisphere.
pub fn random_cosine_direction(s: &mut Sampler) -> (r: Vec3)
    ensures
        r.z >= 0,
{
    let p = random_in_unit_disk(s);
    let k = fx_sub(FX_ONE, p.length_squared());
    let k_pos = if k < 0 {
        0
    } else {
        k
    };
    let z = fx_sqrt(k_pos);
    proof {
        crate::fx::lemma_isqrt_exists((k_pos as int) * (FX_ONE as int));
    }
    Vec3 { x: p.x, y: p.y, z }
}

} // verus!
