//! Planar parallelograms. A quad is a corner point q and two edge
//! vectors u, v; the constructor caches the plane normal, the plane
//! constant, the coordinate-conversion vector w and the area, and the
//! hit test converts the plane intersection into planar (alpha, beta)
//! coordinates and accepts points with both inside [0, 1].

use crate::aabb::AABB;
use crate::fx::{fx_abs, fx_add, fx_div, fx_div_s, fx_mul, fx_mul_s, fx_sub, sat64, FX_ONE};
use crate::hittable::{hit_record_s, HitRecord};
use crate::interval::Interval;
use crate::ray::{ray_at_s, Ray};
use crate::rng::Sampler;
use crate::vec3::{
    cross, cross_s, dot_s, length_s, v_add_s, v_div_scalar_s, v_scale_s, v_sub_s, Point3, Vec3,
};
use vstd::prelude::*;

verus! {

/// Ray parameters below this are ignored when a quad weighs a light
/// direction, mirroring the renderer's self-intersection epsilon.
pub const RAY_EPS: i64 = 66;

#[derive(Clone, Copy, Debug, PartialEq, Eq, Structural)]
pub struct Quad {
    pub q: Point3,
    pub u: Vec3,
    pub v: Vec3,
    pub w: Vec3,
    pub mat: usize,
    pub bbox: AABB,
    pub normal: Vec3,
    pub d: i64,
    pub area: i64,
}

/// The derived quantities the constructor caches.
#[verifier::opaque]
pub open spec fn quad_new_s(q: Point3, u: Vec3, v: Vec3, mat: usize) -> Quad {
    let bbox1 = crate::aabb::pad_s(
        AABB {
            x: crate::aabb::ordered_iv_s(q.x, v_add_s(v_add_s(q, u), v).x),
            y: crate::aabb::ordered_iv_s(q.y, v_add_s(v_add_s(q, u), v).y),
            z: crate::aabb::ordered_iv_s(q.z, v_add_s(v_add_s(q, u), v).z),
        },
    );
    let bbox2 = crate::aabb::pad_s(
        AABB {
            x: crate::aabb::ordered_iv_s(v_add_s(q, u).x, v_add_s(q, v).x),
            y: crate::aabb::ordered_iv_s(v_add_s(q, u).y, v_add_s(q, v).y),
            z: crate::aabb::ordered_iv_s(v_add_s(q, u).z, v_add_s(q, v).z),
        },
    );
    let n = cross_s(u, v);
    let normal = v_div_scalar_s(n, length_s(n));
    Quad {
        q,
        u,
        v,
        w: v_div_scalar_s(n, dot_s(n, n)),
        mat,
        bbox: crate::aabb::pad_s(
            AABB {
                x: crate::interval::iv_union_s(bbox1.x, bbox2.x),
                y: crate::interval::iv_union_s(bbox1.y, bbox2.y),
                z: crate::interval::iv_union_s(bbox1.z, bbox2.z),
            },
        ),
        normal,
        d: sat64(dot_s(q, normal)) as i64,
        area: sat64(length_s(n)) as i64,
    }
}

/// The planar coordinates of a point p of the quad's plane.
pub open spec fn quad_alpha_s(qd: Quad, p: Point3) -> int {
    dot_s(qd.w, cross_s(v_sub_s(p, qd.q), qd.v))
}

pub open spec fn quad_beta_s(qd: Quad, p: Point3) -> int {
    dot_s(qd.w, cross_s(qd.u, v_sub_s(p, qd.q)))
}

/// The full intersection pipeline: plane hit, interval check, planar
/// containment, record.
#[verifier::opaque]
pub open spec fn quad_hit_s(qd: Quad, r: Ray, lo: int, hi: int) -> Option<HitRecord> {
    let denom = dot_s(r.dir, qd.normal);
    if denom == 0 {
        None
    } else {
        let t = fx_div_s(sat64(qd.d - dot_s(r.orig, qd.normal)), denom);
        if !(lo <= t <= hi) {
            None
        } else {
            let p = ray_at_s(r, t);
            let alpha = quad_alpha_s(qd, p);
            let beta = quad_beta_s(qd, p);
            if !(0 <= alpha <= FX_ONE) || !(0 <= beta <= FX_ONE) {
                None
            } else {
                Some(
                    hit_record_s(
                        p,
                        sat64(t) as i64,
                        qd.normal,
                        r,
                        qd.mat,
                        sat64(alpha) as i64,
                        sat64(beta) as i64,
                    ),
                )
            }
        }
    }
}

/// The importance weight a quad light gives a direction: squared
/// distance over cosine times area, zero when the direction misses.
pub open spec fn quad_pdf_value_s(qd: Quad, origin: Point3, direction: Vec3) -> int {
    let r = Ray { orig: origin, dir: direction, tm: 0 };
    match quad_hit_s(qd, r, RAY_EPS as int, i64::MAX as int) {
        Some(rec) => {
            let dist_sq = fx_mul_s(
                fx_mul_s(rec.t as int, rec.t as int),
                dot_s(direction, direction),
            );
            let cos_raw = fx_div_s(dot_s(direction, rec.normal), length_s(direction));
            let cosine = if cos_raw < 0 {
                sat64(-cos_raw)
            } else {
                cos_raw
            };
            fx_div_s(dist_sq, fx_mul_s(cosine, qd.area as int))
        },
        None => 0,
    }
}

impl Quad {
    pub fn new(q: &Point3, u: &Vec3, v: &Vec3, mat: usize) -> (r: Quad)
        ensures
            r == quad_new_s(*q, *u, *v, mat),
    {
        proof {
            reveal(quad_new_s);
        }
        let bbox1 = AABB::two_point(q, &q.add(*u).add(*v));
        let bbox2 = AABB::two_point(&q.add(*u), &q.add(*v));

        let n = cross(u, v);
        let normal = n.div(n.length());
        let d = q.dot(normal);
        let w = n.div(n.dot(n));
        let area = n.length();
        Quad {
            q: *q,
            u: *u,
            v: *v,
            w,
            mat,
            bbox: AABB::two_aabb(&bbox1, &bbox2),
            normal,
            d,
            area,
        }
    }

    pub fn hit(&self, r: &Ray, ray_t: Interval) -> (res: Option<HitRecord>)
        ensures
            res == quad_hit_s(*self, *r, ray_t.min as int, ray_t.max as int),
    {
        proof {
            reveal(quad_hit_s);
        }
        let denom = r.direction().dot(self.normal);
        if denom == 0 {
            return None;
        }
        let t = fx_div(fx_sub(self.d, r.origin().dot(self.normal)), denom);
        if !ray_t.contains(t) {
            return None;
        }

        let intersection = r.at(t);
        let p_q = intersection.sub(self.q);
        let alpha = self.w.dot(cross(&p_q, &self.v));
        let beta = self.w.dot(cross(&self.u, &p_q));

        let range = Interval::new(0, FX_ONE);
        if !range.contains(alpha) || !range.contains(beta) {
            return None;
        }
        let rec = HitRecord::new(&intersection, t, &self.normal, r, self.mat, alpha, beta);
        Some(rec)
    }

    pub fn bounding_box(&self) -> (b: AABB)
        ensures
            b == self.bbox,
    {
        self.bbox
    }

    /// Solid-angle importance weight of a direction toward this quad.
    pub fn pdf_value(&self, origin: &Point3, direction: &Vec3) -> (r: i64)
        ensures
            r as int == quad_pdf_value_s(*self, *origin, *direction),
    {
        if let Some(rec) = self.hit(
            &Ray::new(*origin, *direction, 0),
            Interval::new(RAY_EPS, i64::MAX),
        ) {
            let distance_squared = fx_mul(fx_mul(rec.t, rec.t), direction.length_squared());
            let cosine = fx_abs(fx_div(direction.dot(rec.normal), direction.length()));
            fx_div(distance_squared, fx_mul(cosine, self.area))
        } else {
            0
        }
    }

    /// The direction from `o` to a uniformly sampled point of the quad.
    pub fn random(&self, o: &Vec3, s: &mut Sampler) -> (r: Vec3)
        ensures
            exists|r1: int, r2: int|
                0 <= r1 < FX_ONE && 0 <= r2 < FX_ONE && r == v_sub_s(
                    v_add_s(
                        v_add_s(self.q, #[trigger] v_scale_s(self.u, r1)),
                        #[trigger] v_scale_s(self.v, r2),
                    ),
                    *o,
                ),
    {
        let r1 = s.unit();
        let r2 = s.unit();
        let random_point = self.q.add(self.u.scale(r1)).add(self.v.scale(r2));
        let res = random_point.sub(*o);
        proof {
            assert(0 <= r1 < FX_ONE && 0 <= r2 < FX_ONE && res == v_sub_s(
                v_add_s(v_add_s(self.q, v_scale_s(self.u, r1 as int)), v_scale_s(self.v, r2 as int)),
                *o,
            ));
        }
        res
    }
}

/// A quad's cached box is ordered: it is the union of two padded
/// corner-spanned boxes.
pub proof fn lemma_quad_bbox_ordered(q: Point3, u: Vec3, v: Vec3, mat: usize)
    ensures
        crate::aabb::aabb_ordered_s(quad_new_s(q, u, v, mat).bbox),
{
    reveal(quad_new_s);
    crate::aabb::lemma_two_point_ordered(q, v_add_s(v_add_s(q, u), v));
    crate::aabb::lemma_two_point_ordered(v_add_s(q, u), v_add_s(q, v));
    crate::aabb::lemma_pad_ordered(
        AABB {
            x: crate::interval::iv_union_s(
                quad_bbox1_s(q, u, v).x,
                quad_bbox2_s(q, u, v).x,
            ),
            y: crate::interval::iv_union_s(
                quad_bbox1_s(q, u, v).y,
                quad_bbox2_s(q, u, v).y,
            ),
            z: crate::interval::iv_union_s(
                quad_bbox1_s(q, u, v).z,
                quad_bbox2_s(q, u, v).z,
            ),
        },
    );
}

/// The first corner-spanned box of a quad's construction.
pub open spec fn quad_bbox1_s(q: Point3, u: Vec3, v: Vec3) -> AABB {
    crate::aabb::pad_s(
        AABB {
            x: crate::aabb::ordered_iv_s(q.x, v_add_s(v_add_s(q, u), v).x),
            y: crate::aabb::ordered_iv_s(q.y, v_add_s(v_add_s(q, u), v).y),
            z: crate::aabb::ordered_iv_s(q.z, v_add_s(v_add_s(q, u), v).z),
        },
    )
}

/// The second corner-spanned box of a quad's construction.
pub open spec fn quad_bbox2_s(q: Point3, u: Vec3, v: Vec3) -> AABB {
    crate::aabb::pad_s(
        AABB {
            x: crate::aabb::ordered_iv_s(v_add_s(q, u).x, v_add_s(q, v).x),
            y: crate::aabb::ordered_iv_s(v_add_s(q, u).y, v_add_s(q, v).y),
            z: crate::aabb::ordered_iv_s(v_add_s(q, u).z, v_add_s(q, v).z),
        },
    )
}

/// The six faces of the axis-aligned box spanned by two opposite
/// corners, as quads.
pub open spec fn cobox_quads_s(a: Point3, b: Point3, mat: usize) -> Seq<crate::bvh::Prim> {
    let mnx = if a.x <= b.x { a.x } else { b.x };
    let mny = if a.y <= b.y { a.y } else { b.y };
    let mnz = if a.z <= b.z { a.z } else { b.z };
    let mxx = if a.x >= b.x { a.x } else { b.x };
    let mxy = if a.y >= b.y { a.y } else { b.y };
    let mxz = if a.z >= b.z { a.z } else { b.z };
    let dx = Vec3 { x: sat64(mxx - mnx) as i64, y: 0, z: 0 };
    let dy = Vec3 { x: 0, y: sat64(mxy - mny) as i64, z: 0 };
    let dz = Vec3 { x: 0, y: 0, z: sat64(mxz - mnz) as i64 };
    seq![
        crate::bvh::Prim::Quad(quad_new_s(Vec3 { x: mnx, y: mny, z: mxz }, dx, dy, mat)),
        crate::bvh::Prim::Quad(
            quad_new_s(Vec3 { x: mxx, y: mny, z: mxz }, crate::vec3::v_neg_s(dz), dy, mat),
        ),
        crate::bvh::Prim::Quad(
            quad_new_s(Vec3 { x: mxx, y: mny, z: mnz }, crate::vec3::v_neg_s(dx), dy, mat),
        ),
        crate::bvh::Prim::Quad(quad_new_s(Vec3 { x: mnx, y: mny, z: mnz }, dz, dy, mat)),
        crate::bvh::Prim::Quad(
            quad_new_s(Vec3 { x: mnx, y: mxy, z: mxz }, dx, crate::vec3::v_neg_s(dz), mat),
        ),
        crate::bvh::Prim::Quad(quad_new_s(Vec3 { x: mnx, y: mny, z: mnz }, dx, dz, mat)),
    ]
}

/// What cobox builds: a hierarchy over exactly the six face quads.
pub open spec fn cobox_ok(o: crate::hittable_list::Object, a: Point3, b: Point3, mat: usize) -> bool {
    match o {
        crate::hittable_list::Object::Node(n) => {
            &&& crate::bvh::bvh_wf(n)
            &&& n.prims@ == cobox_quads_s(a, b, mat)
            &&& crate::hittable_list::object_wf(o)
            &&& forall|v: usize| crate::bvh::tree_idxs(n.tree).contains(v) == (v < 6)
        },
        _ => false,
    }
}

/// The composite box: six quads assembled from two opposite corners,
/// wrapped in their own hierarchy.
#[verifier::rlimit(100)]
pub fn cobox(
    a: &Point3,
    b: &Point3,
    mat: usize,
    s: &mut crate::rng::Sampler,
) -> (o: crate::hittable_list::Object)
    ensures
        cobox_ok(o, *a, *b, mat),
{
    let mnx = fx_min_v(a.x, b.x);
    let mny = fx_min_v(a.y, b.y);
    let mnz = fx_min_v(a.z, b.z);
    let mxx = fx_max_v(a.x, b.x);
    let mxy = fx_max_v(a.y, b.y);
    let mxz = fx_max_v(a.z, b.z);

    let dx = Vec3 { x: fx_sub(mxx, mnx), y: 0, z: 0 };
    let dy = Vec3 { x: 0, y: fx_sub(mxy, mny), z: 0 };
    let dz = Vec3 { x: 0, y: 0, z: fx_sub(mxz, mnz) };

    let mut sides: Vec<crate::bvh::Prim> = Vec::new();
    sides.push(
        crate::bvh::Prim::Quad(Quad::new(&Vec3 { x: mnx, y: mny, z: mxz }, &dx, &dy, mat)),
    );
    sides.push(
        crate::bvh::Prim::Quad(Quad::new(&Vec3 { x: mxx, y: mny, z: mxz }, &dz.neg(), &dy, mat)),
    );
    sides.push(
        crate::bvh::Prim::Quad(Quad::new(&Vec3 { x: mxx, y: mny, z: mnz }, &dx.neg(), &dy, mat)),
    );
    sides.push(
        crate::bvh::Prim::Quad(Quad::new(&Vec3 { x: mnx, y: mny, z: mnz }, &dz, &dy, mat)),
    );
    sides.push(
        crate::bvh::Prim::Quad(Quad::new(&Vec3 { x: mnx, y: mxy, z: mxz }, &dx, &dz.neg(), mat)),
    );
    sides.push(
        crate::bvh::Prim::Quad(Quad::new(&Vec3 { x: mnx, y: mny, z: mnz }, &dx, &dz, mat)),
    );
    proof {
        assert(sides@ =~= cobox_quads_s(*a, *b, mat));
        let mnx_g = if a.x <= b.x { a.x } else { b.x };
        let mny_g = if a.y <= b.y { a.y } else { b.y };
        let mnz_g = if a.z <= b.z { a.z } else { b.z };
        let mxx_g = if a.x >= b.x { a.x } else { b.x };
        let mxy_g = if a.y >= b.y { a.y } else { b.y };
        let mxz_g = if a.z >= b.z { a.z } else { b.z };
        let dx_g = Vec3 { x: sat64(mxx_g - mnx_g) as i64, y: 0, z: 0 };
        let dy_g = Vec3 { x: 0, y: sat64(mxy_g - mny_g) as i64, z: 0 };
        let dz_g = Vec3 { x: 0, y: 0, z: sat64(mxz_g - mnz_g) as i64 };
        lemma_quad_bbox_ordered(Vec3 { x: mnx_g, y: mny_g, z: mxz_g }, dx_g, dy_g, mat);
        lemma_quad_bbox_ordered(
            Vec3 { x: mxx_g, y: mny_g, z: mxz_g },
            crate::vec3::v_neg_s(dz_g),
            dy_g,
            mat,
        );
        lemma_quad_bbox_ordered(
            Vec3 { x: mxx_g, y: mny_g, z: mnz_g },
            crate::vec3::v_neg_s(dx_g),
            dy_g,
            mat,
        );
        lemma_quad_bbox_ordered(Vec3 { x: mnx_g, y: mny_g, z: mnz_g }, dz_g, dy_g, mat);
        lemma_quad_bbox_ordered(
            Vec3 { x: mnx_g, y: mxy_g, z: mxz_g },
            dx_g,
            crate::vec3::v_neg_s(dz_g),
            mat,
        );
        lemma_quad_bbox_ordered(Vec3 { x: mnx_g, y: mny_g, z: mnz_g }, dx_g, dz_g, mat);
        assert forall|i: int|
            0 <= i < sides@.len() implies crate::aabb::aabb_ordered_s(
            crate::bvh::prim_bbox_s(#[trigger] sides@[i]),
        ) by {
            assert(i == 0 || i == 1 || i == 2 || i == 3 || i == 4 || i == 5);
        }
    }
    let node = crate::bvh::BvhNode::new(sides, s);
    crate::hittable_list::Object::Node(node)
}

/// Minimum of two scalars.
fn fx_min_v(a: i64, b: i64) -> (r: i64)
    ensures
        r as int == if a <= b {
            a as int
        } else {
            b as int
        },
{
    if a <= b {
        a
    } else {
        b
    }
}

/// Maximum of two scalars.
fn fx_max_v(a: i64, b: i64) -> (r: i64)
    ensures
        r as int == if a >= b {
            a as int
        } else {
            b as int
        },
{
    if a >= b {
        a
    } else {
        b
    }
}

/// Planar containment for the canonical unit quad (corner at the
/// origin, unit edges along x and y): a plane point maps to planar
/// coordinates equal to its own x and y, so a point strictly inside
/// the parallelogram yields both coordinates strictly inside (0, 1)
/// and a point outside yields one of them outside [0, 1].
pub proof fn lemma_quad_planar_coords(p: Point3, mat: usize)
    requires
        p.z == 0,
    ensures
        ({
            let qd = quad_new_s(
                Vec3 { x: 0, y: 0, z: 0 },
                Vec3 { x: 65536, y: 0, z: 0 },
                Vec3 { x: 0, y: 65536, z: 0 },
                mat,
            );
            quad_alpha_s(qd, p) == p.x as int && quad_beta_s(qd, p) == p.y as int
        }),
{
    reveal(quad_new_s);
    let qd = quad_new_s(
        Vec3 { x: 0, y: 0, z: 0 },
        Vec3 { x: 65536, y: 0, z: 0 },
        Vec3 { x: 0, y: 65536, z: 0 },
        mat,
    );
    crate::fx::lemma_tdiv_multiple(65536, 65536);
    assert(65536int * 65536int == 65536 * 65536) by (nonlinear_arith);
    let n = cross_s(Vec3 { x: 65536, y: 0, z: 0 }, Vec3 { x: 0, y: 65536, z: 0 });
    assert(n == (Vec3 { x: 0, y: 0, z: 65536 }));
    assert((65536int * 65536int) == 0x100000000int) by (nonlinear_arith);
    assert(crate::vec3::dot_s(n, n) == 65536);
    crate::fx::lemma_isqrt_unique(65536int * 65536int, 65536int);
    assert(crate::vec3::length_s(n) == 65536);
    assert(qd.w == (Vec3 { x: 0, y: 0, z: 65536 }));
    assert(qd.normal == (Vec3 { x: 0, y: 0, z: 65536 }));
    // alpha: w . ((p - q) x v) with everything exact.
    let pq = v_sub_s(p, qd.q);
    assert(pq == p);
    let cv = cross_s(pq, Vec3 { x: 0, y: 65536, z: 0 });
    crate::fx::lemma_tdiv_multiple(p.x as int, 65536);
    crate::fx::lemma_tdiv_multiple(p.y as int, 65536);
    assert((p.x as int) * 65536 == 65536 * (p.x as int)) by (nonlinear_arith);
    assert((p.y as int) * 65536 == 65536 * (p.y as int)) by (nonlinear_arith);
    assert(cv == (Vec3 { x: 0, y: 0, z: p.x }));
    assert(quad_alpha_s(qd, p) == p.x as int);
    let cu = cross_s(Vec3 { x: 65536, y: 0, z: 0 }, pq);
    assert(cu == (Vec3 { x: 0, y: 0, z: p.y }));
    assert(quad_beta_s(qd, p) == p.y as int);
}

} // verus!
