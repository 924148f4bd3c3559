//! Perlin-style value noise: a table of random scalars indexed through
//! three shuffled permutation tables, blended by trilinear
//! interpolation of the fractional lattice coordinates.

use crate::fx::{fx_add, fx_floor, fx_mul, fx_mul_s, fx_sub, sat64, FX_ONE};
use crate::rng::Sampler;
use crate::vec3::Point3;
use vstd::prelude::*;

verus! {

pub struct Perlin {
    pub rand_float: Vec<i64>,
    pub perm_x: Vec<u32>,
    pub perm_y: Vec<u32>,
    pub perm_z: Vec<u32>,
}

/// Well-formedness: full tables whose permutation entries index back
/// into the value table, and values inside [0, 1).
pub open spec fn perlin_wf(p: Perlin) -> bool {
    &&& p.rand_float@.len() == 256
    &&& p.perm_x@.len() == 256
    &&& p.perm_y@.len() == 256
    &&& p.perm_z@.len() == 256
    &&& forall|i: int| 0 <= i < 256 ==> #[trigger] p.perm_x@[i] < 256
    &&& forall|i: int| 0 <= i < 256 ==> #[trigger] p.perm_y@[i] < 256
    &&& forall|i: int| 0 <= i < 256 ==> #[trigger] p.perm_z@[i] < 256
    &&& forall|i: int| 0 <= i < 256 ==> 0 <= #[trigger] p.rand_float@[i] < FX_ONE
}

/// The table value at one lattice corner: the three permutation entries
/// of the wrapped lattice coordinates, combined by exclusive or.
pub open spec fn corner_s(p: Perlin, i: int, j: int, k: int, di: int, dj: int, dk: int) -> int {
    let xi = p.perm_x@[(i + di) % 256];
    let yi = p.perm_y@[(j + dj) % 256];
    let zi = p.perm_z@[(k + dk) % 256];
    p.rand_float@[(xi ^ yi ^ zi) as int] as int
}

/// A trilinear term of weights in [0, 1] and a table value in [0, 1)
/// is nonnegative and at most the exact rational product.
proof fn lemma_term_bound(a: int, b: int, c: int, d: int)
    requires
        0 <= a <= 65536,
        0 <= b <= 65536,
        0 <= c <= 65536,
        0 <= d <= 65535,
    ensures
        0 <= fx_mul_s(fx_mul_s(fx_mul_s(a, b), c), d),
        fx_mul_s(fx_mul_s(fx_mul_s(a, b), c), d) * (65536 * 65536 * 65536) <= a * b * c * d,
        fx_mul_s(fx_mul_s(fx_mul_s(a, b), c), d) <= 65535,
{
    let s: int = 65536;
    assert(0 <= a * b <= s * s) by (nonlinear_arith)
        requires
            0 <= a <= s && 0 <= b <= s,
    ;
    lemma_tdiv_parts(a * b);
    let m1 = fx_mul_s(a, b);
    assert(m1 == crate::fx::tdiv(a * b, s));
    assert(m1 <= s) by (nonlinear_arith)
        requires
            m1 * s <= a * b && a * b <= s * s && 0 <= m1 && s > 0,
    ;
    assert(0 <= m1 * c <= s * s) by (nonlinear_arith)
        requires
            0 <= m1 <= s && 0 <= c <= s,
    ;
    lemma_tdiv_parts(m1 * c);
    let m2 = fx_mul_s(m1, c);
    assert(m2 == crate::fx::tdiv(m1 * c, s));
    assert(m2 <= s) by (nonlinear_arith)
        requires
            m2 * s <= m1 * c && m1 * c <= s * s && 0 <= m2 && s > 0,
    ;
    assert(0 <= m2 * d <= s * s) by (nonlinear_arith)
        requires
            0 <= m2 <= s && 0 <= d <= s,
    ;
    lemma_tdiv_parts(m2 * d);
    let t = fx_mul_s(m2, d);
    assert(t == crate::fx::tdiv(m2 * d, s));
    assert(t * (s * s * s) <= a * b * c * d) by (nonlinear_arith)
        requires
            t * s <= m2 * d && m2 * s <= m1 * c && m1 * s <= a * b && 0 <= m1 && 0 <= m2 && 0 <= t
                && 0 <= c && 0 <= d && s > 0,
    ;
    assert(a * b * c * d <= 65535 * (s * s * s)) by (nonlinear_arith)
        requires
            0 <= a <= s && 0 <= b <= s && 0 <= c <= s && 0 <= d <= 65535,
    ;
    assert(t <= 65535) by (nonlinear_arith)
        requires
            t * (s * s * s) <= 65535 * (s * s * s) && s > 0,
    ;
}

/// For a nonnegative dividend, the truncated quotient by the scale is
/// nonnegative and multiplies back below the dividend.
proof fn lemma_tdiv_parts(x: int)
    requires
        0 <= x,
    ensures
        0 <= crate::fx::tdiv(x, 65536),
        crate::fx::tdiv(x, 65536) * 65536 <= x,
{
    if x > 0 {
        vstd::arithmetic::div_mod::lemma_div_pos_is_pos(x, 65536);
        vstd::arithmetic::div_mod::lemma_fundamental_div_mod(x, 65536);
        vstd::arithmetic::div_mod::lemma_mod_bound(x, 65536);
        assert(crate::fx::tdiv(x, 65536) * 65536 == 65536 * (x / 65536)) by (nonlinear_arith)
            requires
                crate::fx::tdiv(x, 65536) == x / 65536,
        ;
    }
}

/// The eight trilinear terms are each nonnegative and together sum to
/// less than one: the weights of each axis pair up to one exactly.
proof fn lemma_tri_sum_bound(
    u: int,
    v: int,
    w: int,
    c000: int,
    c001: int,
    c010: int,
    c011: int,
    c100: int,
    c101: int,
    c110: int,
    c111: int,
)
    requires
        0 <= u < 65536,
        0 <= v < 65536,
        0 <= w < 65536,
        0 <= c000 <= 65535,
        0 <= c001 <= 65535,
        0 <= c010 <= 65535,
        0 <= c011 <= 65535,
        0 <= c100 <= 65535,
        0 <= c101 <= 65535,
        0 <= c110 <= 65535,
        0 <= c111 <= 65535,
    ensures
        ({
            let nu = 65536 - u;
            let nv = 65536 - v;
            let nw = 65536 - w;
            let t000 = fx_mul_s(fx_mul_s(fx_mul_s(nu, nv), nw), c000);
            let t001 = fx_mul_s(fx_mul_s(fx_mul_s(nu, nv), w), c001);
            let t010 = fx_mul_s(fx_mul_s(fx_mul_s(nu, v), nw), c010);
            let t011 = fx_mul_s(fx_mul_s(fx_mul_s(nu, v), w), c011);
            let t100 = fx_mul_s(fx_mul_s(fx_mul_s(u, nv), nw), c100);
            let t101 = fx_mul_s(fx_mul_s(fx_mul_s(u, nv), w), c101);
            let t110 = fx_mul_s(fx_mul_s(fx_mul_s(u, v), nw), c110);
            let t111 = fx_mul_s(fx_mul_s(fx_mul_s(u, v), w), c111);
            0 <= t000 && 0 <= t001 && 0 <= t010 && 0 <= t011 && 0 <= t100 && 0 <= t101 && 0
                <= t110 && 0 <= t111 && t000 + t001 + t010 + t011 + t100 + t101 + t110 + t111
                <= 65535
        }),
{
    let s: int = 65536;
    let nu = s - u;
    let nv = s - v;
    let nw = s - w;
    lemma_term_bound(nu, nv, nw, c000);
    lemma_term_bound(nu, nv, w, c001);
    lemma_term_bound(nu, v, nw, c010);
    lemma_term_bound(nu, v, w, c011);
    lemma_term_bound(u, nv, nw, c100);
    lemma_term_bound(u, nv, w, c101);
    lemma_term_bound(u, v, nw, c110);
    lemma_term_bound(u, v, w, c111);
    let t000 = fx_mul_s(fx_mul_s(fx_mul_s(nu, nv), nw), c000);
    let t001 = fx_mul_s(fx_mul_s(fx_mul_s(nu, nv), w), c001);
    let t010 = fx_mul_s(fx_mul_s(fx_mul_s(nu, v), nw), c010);
    let t011 = fx_mul_s(fx_mul_s(fx_mul_s(nu, v), w), c011);
    let t100 = fx_mul_s(fx_mul_s(fx_mul_s(u, nv), nw), c100);
    let t101 = fx_mul_s(fx_mul_s(fx_mul_s(u, nv), w), c101);
    let t110 = fx_mul_s(fx_mul_s(fx_mul_s(u, v), nw), c110);
    let t111 = fx_mul_s(fx_mul_s(fx_mul_s(u, v), w), c111);
    // Each exact product is at most 65535 times its weight product.
    assert(nu * nv * nw * c000 <= 65535 * (nu * nv * nw) && nu * nv * w * c001 <= 65535 * (nu * nv
        * w) && nu * v * nw * c010 <= 65535 * (nu * v * nw) && nu * v * w * c011 <= 65535 * (nu * v
        * w) && u * nv * nw * c100 <= 65535 * (u * nv * nw) && u * nv * w * c101 <= 65535 * (u * nv
        * w) && u * v * nw * c110 <= 65535 * (u * v * nw) && u * v * w * c111 <= 65535 * (u * v
        * w)) by (nonlinear_arith)
        requires
            0 <= u && 0 <= v && 0 <= w && 0 <= nu && 0 <= nv && 0 <= nw && 0 <= c000 <= 65535 && 0
                <= c001 <= 65535 && 0 <= c010 <= 65535 && 0 <= c011 <= 65535 && 0 <= c100 <= 65535
                && 0 <= c101 <= 65535 && 0 <= c110 <= 65535 && 0 <= c111 <= 65535,
    ;
    // The weight products distribute to the full cube, in stages.
    let q1 = nu * nv;
    let q2 = nu * v;
    let q3 = u * nv;
    let q4 = u * v;
    assert(q1 + q2 + q3 + q4 == (nu + u) * (nv + v)) by (nonlinear_arith)
        requires
            q1 == nu * nv && q2 == nu * v && q3 == u * nv && q4 == u * v,
    ;
    assert((q1 + q2 + q3 + q4) * (nw + w) == q1 * nw + q1 * w + q2 * nw + q2 * w + q3 * nw + q3 * w
        + q4 * nw + q4 * w) by (nonlinear_arith);
    assert(q1 * nw == nu * nv * nw && q1 * w == nu * nv * w && q2 * nw == nu * v * nw && q2 * w
        == nu * v * w && q3 * nw == u * nv * nw && q3 * w == u * nv * w && q4 * nw == u * v * nw
        && q4 * w == u * v * w) by (nonlinear_arith)
        requires
            q1 == nu * nv && q2 == nu * v && q3 == u * nv && q4 == u * v,
    ;
    assert(((nu + u) * (nv + v)) * (nw + w) == (nu + u) * ((nv + v) * (nw + w)))
        by (nonlinear_arith);
    assert(nu * nv * nw + nu * nv * w + nu * v * nw + nu * v * w + u * nv * nw + u * nv * w + u * v
        * nw + u * v * w == (nu + u) * ((nv + v) * (nw + w)));
    assert((nu + u) * ((nv + v) * (nw + w)) == s * (s * s)) by (nonlinear_arith)
        requires
            nu + u == s && nv + v == s && nw + w == s,
    ;
    assert((t000 + t001 + t010 + t011 + t100 + t101 + t110 + t111) * (s * s * s) <= 65535 * (s * (s
        * s))) by (nonlinear_arith)
        requires
            t000 * (s * s * s) <= nu * nv * nw * c000 && t001 * (s * s * s) <= nu * nv * w * c001
                && t010 * (s * s * s) <= nu * v * nw * c010 && t011 * (s * s * s) <= nu * v * w
                * c011 && t100 * (s * s * s) <= u * nv * nw * c100 && t101 * (s * s * s) <= u * nv
                * w * c101 && t110 * (s * s * s) <= u * v * nw * c110 && t111 * (s * s * s) <= u
                * v * w * c111 && nu * nv * nw * c000 + nu * nv * w * c001 + nu * v * nw * c010
                + nu * v * w * c011 + u * nv * nw * c100 + u * nv * w * c101 + u * v * nw * c110
                + u * v * w * c111 <= 65535 * (s * (s * s)),
    ;
    assert(t000 + t001 + t010 + t011 + t100 + t101 + t110 + t111 <= 65535) by (nonlinear_arith)
        requires
            (t000 + t001 + t010 + t011 + t100 + t101 + t110 + t111) * (s * s * s) <= 65535 * (s * (
            s * s)) && s == 65536,
    ;
}

/// One trilinear weight factor: t for a far corner, 1 - t for a near one.
pub open spec fn lerp_w(sel: int, t: int) -> int {
    if sel == 1 {
        t
    } else {
        sat64(FX_ONE - t)
    }
}

pub open spec fn tri_term_s(
    p: Perlin,
    i: int,
    j: int,
    k: int,
    u: int,
    v: int,
    w: int,
    di: int,
    dj: int,
    dk: int,
) -> int {
    fx_mul_s(
        fx_mul_s(fx_mul_s(lerp_w(di, u), lerp_w(dj, v)), lerp_w(dk, w)),
        corner_s(p, i, j, k, di, dj, dk),
    )
}

/// The noise value at a point: lattice cell, fractional coordinates,
/// and the trilinear blend of the eight corner values.
pub open spec fn perlin_noise_s(pl: Perlin, p: Point3) -> int {
    let i = (p.x as int) / 65536;
    let j = (p.y as int) / 65536;
    let k = (p.z as int) / 65536;
    let u = p.x - i * 65536;
    let v = p.y - j * 65536;
    let w = p.z - k * 65536;
    sat64(
        sat64(
            sat64(
                sat64(
                    sat64(
                        sat64(
                            sat64(
                                tri_term_s(pl, i, j, k, u, v, w, 0, 0, 0) + tri_term_s(
                                    pl, i, j, k, u, v, w, 0, 0, 1,
                                ),
                            ) + tri_term_s(pl, i, j, k, u, v, w, 0, 1, 0),
                        ) + tri_term_s(pl, i, j, k, u, v, w, 0, 1, 1),
                    ) + tri_term_s(pl, i, j, k, u, v, w, 1, 0, 0),
                ) + tri_term_s(pl, i, j, k, u, v, w, 1, 0, 1),
            ) + tri_term_s(pl, i, j, k, u, v, w, 1, 1, 0),
        ) + tri_term_s(pl, i, j, k, u, v, w, 1, 1, 1),
    )
}

/// Wrap a lattice coordinate into [0, 256).
fn wrap256(i: i64) -> (r: usize)
    ensures
        r as int == (i as int) % 256,
        r < 256,
{
    let m = match i.checked_rem_euclid(256) {
        Some(m) => m,
        None => 0,
    };
    m as usize
}

impl Perlin {
    /// One shuffled permutation table of 0..256.
    fn generate_perm(s: &mut Sampler) -> (p: Vec<u32>)
        ensures
            p@.len() == 256,
            forall|i: int| 0 <= i < 256 ==> #[trigger] p@[i] < 256,
    {
        let mut p: Vec<u32> = Vec::new();
        for i in 0..256usize
            invariant
                p@.len() == i,
                forall|j: int| 0 <= j < i ==> #[trigger] p@[j] < 256,
        {
            p.push(i as u32);
        }
        let mut i: usize = 254;
        while i >= 1
            invariant
                i <= 254,
                p@.len() == 256,
                forall|j: int| 0 <= j < 256 ==> #[trigger] p@[j] < 256,
            decreases i,
        {
            let target = s.below(i as u32) as usize;
            let a = p[i];
            let b = p[target];
            p.set(i, b);
            p.set(target, a);
            i = i - 1;
        }
        p
    }

    pub fn new(s: &mut Sampler) -> (p: Perlin)
        ensures
            perlin_wf(p),
    {
        let mut rand_float: Vec<i64> = Vec::new();
        for i in 0..256usize
            invariant
                rand_float@.len() == i,
                forall|j: int| 0 <= j < i ==> 0 <= #[trigger] rand_float@[j] < FX_ONE,
        {
            rand_float.push(s.unit());
        }
        Perlin {
            rand_float,
            perm_x: Self::generate_perm(s),
            perm_y: Self::generate_perm(s),
            perm_z: Self::generate_perm(s),
        }
    }

    /// The value-noise lookup at one corner.
    fn corner(&self, i: i64, j: i64, k: i64, di: i64, dj: i64, dk: i64) -> (r: i64)
        requires
            perlin_wf(*self),
            0 <= di <= 1,
            0 <= dj <= 1,
            0 <= dk <= 1,
            i < i64::MAX - 1,
            j < i64::MAX - 1,
            k < i64::MAX - 1,
        ensures
            r as int == corner_s(*self, i as int, j as int, k as int, di as int, dj as int, dk as int),
            0 <= r < FX_ONE,
    {
        let xi = self.perm_x[wrap256(i + di)];
        let yi = self.perm_y[wrap256(j + dj)];
        let zi = self.perm_z[wrap256(k + dk)];
        let idx = xi ^ yi ^ zi;
        proof {
            assert(xi ^ yi ^ zi < 256) by (bit_vector)
                requires
                    xi < 256 && yi < 256 && zi < 256,
            ;
        }
        self.rand_float[idx as usize]
    }

    /// Trilinearly interpolated value noise at a point.
    pub fn noise(&self, p: &Point3) -> (r: i64)
        requires
            perlin_wf(*self),
        ensures
            r as int == perlin_noise_s(*self, *p),
            0 <= r < FX_ONE,
    {
        let i = fx_floor(p.x);
        let j = fx_floor(p.y);
        let k = fx_floor(p.z);
        proof {
            vstd::arithmetic::div_mod::lemma_fundamental_div_mod(p.x as int, 65536);
            vstd::arithmetic::div_mod::lemma_fundamental_div_mod(p.y as int, 65536);
            vstd::arithmetic::div_mod::lemma_fundamental_div_mod(p.z as int, 65536);
        }
        let u = p.x - i * 65536;
        let v = p.y - j * 65536;
        let w = p.z - k * 65536;

        let c000 = self.corner(i, j, k, 0, 0, 0);
        let c001 = self.corner(i, j, k, 0, 0, 1);
        let c010 = self.corner(i, j, k, 0, 1, 0);
        let c011 = self.corner(i, j, k, 0, 1, 1);
        let c100 = self.corner(i, j, k, 1, 0, 0);
        let c101 = self.corner(i, j, k, 1, 0, 1);
        let c110 = self.corner(i, j, k, 1, 1, 0);
        let c111 = self.corner(i, j, k, 1, 1, 1);

        let nu = fx_sub(FX_ONE, u);
        let nv = fx_sub(FX_ONE, v);
        let nw = fx_sub(FX_ONE, w);

        proof {
            vstd::arithmetic::div_mod::lemma_mod_bound(p.x as int, 65536);
            vstd::arithmetic::div_mod::lemma_mod_bound(p.y as int, 65536);
            vstd::arithmetic::div_mod::lemma_mod_bound(p.z as int, 65536);
            assert(u as int == p.x as int % 65536);
            assert(v as int == p.y as int % 65536);
            assert(w as int == p.z as int % 65536);
            lemma_tri_sum_bound(
                u as int,
                v as int,
                w as int,
                c000 as int,
                c001 as int,
                c010 as int,
                c011 as int,
                c100 as int,
                c101 as int,
                c110 as int,
                c111 as int,
            );
        }
        let t000 = fx_mul(fx_mul(fx_mul(nu, nv), nw), c000);
        let t001 = fx_mul(fx_mul(fx_mul(nu, nv), w), c001);
        let t010 = fx_mul(fx_mul(fx_mul(nu, v), nw), c010);
        let t011 = fx_mul(fx_mul(fx_mul(nu, v), w), c011);
        let t100 = fx_mul(fx_mul(fx_mul(u, nv), nw), c100);
        let t101 = fx_mul(fx_mul(fx_mul(u, nv), w), c101);
        let t110 = fx_mul(fx_mul(fx_mul(u, v), nw), c110);
        let t111 = fx_mul(fx_mul(fx_mul(u, v), w), c111);

        fx_add(
            fx_add(fx_add(fx_add(fx_add(fx_add(fx_add(t000, t001), t010), t011), t100), t101), t110),
            t111,
        )
    }
}

} // verus!
