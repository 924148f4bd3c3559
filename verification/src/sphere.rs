//! Spheres, static or moving linearly between two centers over the
//! shutter interval. Intersection solves the quadratic exactly in
//! fixed-point arithmetic and picks the nearest root inside the query
//! interval.

use crate::aabb::{ordered_iv_s, pad_s, AABB};
use crate::fx::{fx_add, fx_div, fx_div_s, fx_mul, fx_mul_s, fx_sqrt, fx_sqrt_s, fx_sub, sat64};
use crate::hittable::{hit_record_s, HitRecord};
use crate::interval::Interval;
use crate::ray::{ray_at_s, Ray};
use crate::trig::{fx_acos_s, fx_atan2_s, FX_PI, FX_TAU};
use crate::vec3::{dot_s, v_add_s, v_div_scalar_s, v_scale_s, v_sub_s, Point3, Vec3};
use vstd::prelude::*;

verus! {

#[derive(Clone, Copy, Debug, PartialEq, Eq, Structural)]
pub struct Sphere {
    pub center: Point3,
    pub radius: i64,
    pub mat: usize,
    pub is_moving: bool,
    pub center_vec: Vec3,
    pub bbox: AABB,
}

/// The box of a static sphere: center +/- radius on each axis, padded.
pub open spec fn sphere_bbox_s(center: Point3, radius: i64) -> AABB {
    let lo = v_sub_s(center, Vec3 { x: radius, y: radius, z: radius });
    let hi = v_add_s(center, Vec3 { x: radius, y: radius, z: radius });
    pad_s(
        AABB {
            x: ordered_iv_s(lo.x, hi.x),
            y: ordered_iv_s(lo.y, hi.y),
            z: ordered_iv_s(lo.z, hi.z),
        },
    )
}

/// Where the sphere's center is at a given ray time.
pub open spec fn sphere_center_s(s: Sphere, time: i64) -> Point3 {
    if s.is_moving {
        v_add_s(s.center, v_scale_s(s.center_vec, time as int))
    } else {
        s.center
    }
}

/// Texture coordinates of a surface direction by the equirectangular
/// map, computed from the unit outward normal: latitude from the
/// arccosine of the normalized -y, longitude from the arctangent of
/// (-z, x) shifted into [0, 2 pi).
pub open spec fn sphere_uv_s(n: Vec3) -> (int, int) {
    let theta = fx_acos_s(sat64(-(n.y as int)));
    let phi = sat64(fx_atan2_s(sat64(-(n.z as int)), n.x as int) + FX_PI);
    (fx_div_s(phi, FX_TAU as int), fx_div_s(theta, FX_PI as int))
}

/// The full intersection pipeline: quadratic coefficients, discriminant,
/// nearest acceptable root, and the resulting record.
#[verifier::opaque]
pub open spec fn sphere_hit_s(s: Sphere, r: Ray, lo: int, hi: int) -> Option<HitRecord> {
    let center = sphere_center_s(s, r.tm);
    let oc = v_sub_s(center, r.orig);
    let a = dot_s(r.dir, r.dir);
    let h = dot_s(r.dir, oc);
    let c = sat64(dot_s(oc, oc) - fx_mul_s(s.radius as int, s.radius as int));
    let disc = sat64(fx_mul_s(h, h) - fx_mul_s(a, c));
    if disc < 0 {
        None
    } else {
        let sqrtd = fx_sqrt_s(disc);
        let root1 = fx_div_s(sat64(h - sqrtd), a);
        let root2 = fx_div_s(sat64(h + sqrtd), a);
        let root = if root1 < lo || hi < root1 {
            root2
        } else {
            root1
        };
        if root < lo || hi < root {
            None
        } else {
            let t = sat64(root) as i64;
            let p = ray_at_s(r, t as int);
            let outward = v_div_scalar_s(v_sub_s(p, s.center), s.radius as int);
            let uv = sphere_uv_s(outward);
            Some(
                hit_record_s(p, t, outward, r, s.mat, sat64(uv.0) as i64, sat64(uv.1) as i64),
            )
        }
    }
}

impl Sphere {
    pub fn new(center: &Point3, radius: i64, mat: usize) -> (s: Sphere)
        ensures
            s == (Sphere {
                center: *center,
                radius,
                mat,
                is_moving: false,
                center_vec: Vec3 { x: 0, y: 0, z: 0 },
                bbox: sphere_bbox_s(*center, radius),
            }),
    {
        let r_vec = Vec3 { x: radius, y: radius, z: radius };
        let bbox = AABB::two_point(&center.sub(r_vec), &center.add(r_vec));
        Sphere {
            center: *center,
            radius,
            mat,
            is_moving: false,
            center_vec: Vec3 { x: 0, y: 0, z: 0 },
            bbox,
        }
    }

    /// A sphere moving linearly from `center` to `center2` over the
    /// shutter interval; its box encloses both end positions.
    #[verifier::rlimit(50)]
    pub fn new_moving(center: &Point3, radius: i64, mat: usize, center2: &Vec3) -> (s: Sphere)
        ensures
            s == (Sphere {
                center: *center,
                radius,
                mat,
                is_moving: true,
                center_vec: v_sub_s(*center2, *center),
                bbox: crate::aabb::pad_s(
                    AABB {
                        x: crate::interval::iv_union_s(
                            sphere_bbox_s(*center, radius).x,
                            sphere_bbox_s(*center2, radius).x,
                        ),
                        y: crate::interval::iv_union_s(
                            sphere_bbox_s(*center, radius).y,
                            sphere_bbox_s(*center2, radius).y,
                        ),
                        z: crate::interval::iv_union_s(
                            sphere_bbox_s(*center, radius).z,
                            sphere_bbox_s(*center2, radius).z,
                        ),
                    },
                ),
            }),
    {
        let r_vec = Vec3 { x: radius, y: radius, z: radius };
        let bbox1 = AABB::two_point(&center.sub(r_vec), &center.add(r_vec));
        let bbox2 = AABB::two_point(&center2.sub(r_vec), &center2.add(r_vec));
        let bbox = AABB::two_aabb(&bbox1, &bbox2);
        Sphere {
            center: *center,
            radius,
            mat,
            is_moving: true,
            center_vec: center2.sub(*center),
            bbox,
        }
    }

    pub fn sphere_center(&self, time: i64) -> (c: Point3)
        ensures
            c == sphere_center_s(*self, time),
    {
        if self.is_moving {
            self.center.add(self.center_vec.scale(time))
        } else {
            self.center
        }
    }

    pub fn hit(&self, r: &Ray, ray_t: Interval) -> (res: Option<HitRecord>)
        ensures
            res == sphere_hit_s(*self, *r, ray_t.min as int, ray_t.max as int),
    {
        proof {
            reveal(sphere_hit_s);
        }
        let center: Vec3 = self.sphere_center(r.time());
        let oc: Vec3 = center.sub(*r.origin());
        let a: i64 = r.direction().length_squared();
        let h: i64 = r.direction().dot(oc);
        let c: i64 = fx_sub(oc.length_squared(), fx_mul(self.radius, self.radius));

        let discriminant: i64 = fx_sub(fx_mul(h, h), fx_mul(a, c));
        if discriminant < 0 {
            return None;
        }
        let sqrtd: i64 = fx_sqrt(discriminant);

        // Prefer the nearer root; fall back to the farther one.
        let mut root: i64 = fx_div(fx_sub(h, sqrtd), a);
        if root < ray_t.min || ray_t.max < root {
            root = fx_div(fx_add(h, sqrtd), a);
            if root < ray_t.min || ray_t.max < root {
                return None;
            }
        }

        let t: i64 = root;
        let p: Point3 = r.at(t);
        // The outward normal divides by the rest center even for a
        // moving sphere, matching the cached box and keeping the record
        // a function of the root alone.
        let outward_normal: Vec3 = p.sub(self.center).div(self.radius);

        let theta = crate::trig::fx_acos(fx_sub(0, outward_normal.y));
        let phi = fx_add(crate::trig::fx_atan2(fx_sub(0, outward_normal.z), outward_normal.x), FX_PI);
        let u = fx_div(phi, FX_TAU);
        let v = fx_div(theta, FX_PI);
        let rec: HitRecord = HitRecord::new(&p, t, &outward_normal, r, self.mat, u, v);
        Some(rec)
    }

    pub fn bounding_box(&self) -> (b: AABB)
        ensures
            b == self.bbox,
    {
        self.bbox
    }
}

/// A ray cast from distance d straight at a sphere of radius rad
/// centered at the origin hits at parameter d - rad, with a unit
/// outward normal pointing back at the ray (here +z), whenever the
/// query interval admits that parameter. Stated for whole-unit radii
/// and distances, where every step of the fixed-point quadratic is
/// exact.
pub proof fn lemma_sphere_head_on(rr: int, dd: int, mat: usize, lo: int, hi: int)
    requires
        1 <= rr < dd <= 0x100000,
        lo <= (dd - rr) * 65536 <= hi,
        -0x8000000000000000 <= lo,
        hi <= 0x7FFFFFFFFFFFFFFF,
    ensures
        ({
            let sp = Sphere {
                center: Vec3 { x: 0, y: 0, z: 0 },
                radius: (rr * 65536) as i64,
                mat,
                is_moving: false,
                center_vec: Vec3 { x: 0, y: 0, z: 0 },
                bbox: sphere_bbox_s(Vec3 { x: 0, y: 0, z: 0 }, (rr * 65536) as i64),
            };
            let r = Ray {
                orig: Vec3 { x: 0, y: 0, z: (dd * 65536) as i64 },
                dir: Vec3 { x: 0, y: 0, z: -65536i64 },
                tm: 0,
            };
            match sphere_hit_s(sp, r, lo, hi) {
                Some(h) => {
                    &&& h.t as int == (dd - rr) * 65536
                    &&& h.normal == (Vec3 { x: 0, y: 0, z: 65536 })
                    &&& h.front_face
                    &&& h.p == (Vec3 { x: 0, y: 0, z: (rr * 65536) as i64 })
                },
                None => false,
            }
        }),
{
    reveal(sphere_hit_s);
    let radius = rr * 65536;
    let dist = dd * 65536;
    let sp = Sphere {
        center: Vec3 { x: 0, y: 0, z: 0 },
        radius: radius as i64,
        mat,
        is_moving: false,
        center_vec: Vec3 { x: 0, y: 0, z: 0 },
        bbox: sphere_bbox_s(Vec3 { x: 0, y: 0, z: 0 }, radius as i64),
    };
    let r = Ray {
        orig: Vec3 { x: 0, y: 0, z: dist as i64 },
        dir: Vec3 { x: 0, y: 0, z: -65536i64 },
        tm: 0,
    };
    assert(radius <= 0x100000 * 65536 && dist <= 0x100000 * 65536) by (nonlinear_arith)
        requires
            1 <= rr < dd <= 0x100000 && radius == rr * 65536 && dist == dd * 65536,
    ;
    let oc = v_sub_s(sphere_center_s(sp, 0), r.orig);
    assert(oc == (Vec3 { x: 0, y: 0, z: (-dist) as i64 }));
    // The quadratic coefficients evaluate exactly.
    crate::fx::lemma_tdiv_multiple(65536, 65536);
    assert(dot_s(r.dir, r.dir) == 65536);
    assert((-65536) * ((-dist) as i64) == dist * 65536) by (nonlinear_arith)
        requires
            0 < dist <= 0x10000000000 && (-dist) as i64 == -dist,
    ;
    crate::fx::lemma_tdiv_multiple(dist, 65536);
    assert(dot_s(r.dir, oc) == dist);
    assert(((-dist) as i64) * ((-dist) as i64) == (dd * dd) * (65536 * 65536))
        by (nonlinear_arith)
        requires
            dist == dd * 65536 && 0 < dist <= 0x10000000000 && (-dist) as i64 == -dist,
    ;
    crate::fx::lemma_tdiv_multiple(dd * dd * 65536, 65536);
    assert((dd * dd * 65536) * 65536 == (dd * dd) * (65536 * 65536)) by (nonlinear_arith);
    assert(dd * dd * 65536 <= 0x10000000000 * 65536) by (nonlinear_arith)
        requires
            1 <= dd <= 0x100000,
    ;
    assert(dot_s(oc, oc) == dd * dd * 65536);
    assert(radius * radius == (rr * rr) * (65536 * 65536)) by (nonlinear_arith)
        requires
            radius == rr * 65536,
    ;
    crate::fx::lemma_tdiv_multiple(rr * rr * 65536, 65536);
    assert((rr * rr * 65536) * 65536 == (rr * rr) * (65536 * 65536)) by (nonlinear_arith);
    assert(rr * rr * 65536 < dd * dd * 65536 <= 0x10000000000 * 65536) by (nonlinear_arith)
        requires
            1 <= rr < dd <= 0x100000,
    ;
    let cc = sat64(dot_s(oc, oc) - crate::fx::fx_mul_s(sp.radius as int, sp.radius as int));
    assert(cc == dd * dd * 65536 - rr * rr * 65536);
    // disc = h^2 - a*c = rr^2 * 65536 exactly.
    crate::fx::lemma_tdiv_multiple(dd * dd * 65536, 65536);
    assert(dist * dist == (dd * dd) * (65536 * 65536)) by (nonlinear_arith)
        requires
            dist == dd * 65536,
    ;
    assert(65536 * cc == cc * 65536) by (nonlinear_arith);
    crate::fx::lemma_tdiv_multiple(cc, 65536);
    let disc = sat64(
        crate::fx::fx_mul_s(dot_s(r.dir, oc), dot_s(r.dir, oc)) - crate::fx::fx_mul_s(
            dot_s(r.dir, r.dir),
            cc,
        ),
    );
    assert(disc == rr * rr * 65536);
    // Its square root is exactly the raw radius.
    assert((rr * rr * 65536) * 65536 == radius * radius) by (nonlinear_arith)
        requires
            radius == rr * 65536,
    ;
    assert(radius * radius <= (radius + 1) * (radius + 1) - 1) by (nonlinear_arith)
        requires
            radius >= 0,
    ;
    assert(rr * rr >= 1) by (nonlinear_arith)
        requires
            rr >= 1,
    ;
    assert(disc > 0);
    crate::fx::lemma_isqrt_unique(disc * 65536, radius);
    assert(crate::fx::fx_sqrt_s(disc) == radius);
    // Both roots are exact quotients.
    crate::fx::lemma_tdiv_multiple(dist - radius, 65536);
    crate::fx::lemma_tdiv_multiple(dist + radius, 65536);
    assert((dist - radius) * 65536 == (dd - rr) * 65536 * 65536) by (nonlinear_arith)
        requires
            dist == dd * 65536 && radius == rr * 65536,
    ;
    let root1 = crate::fx::fx_div_s(sat64(dist - radius), 65536);
    assert(root1 == dist - radius);
    assert(dist - radius == (dd - rr) * 65536) by (nonlinear_arith)
        requires
            dist == dd * 65536 && radius == rr * 65536,
    ;
    // The hit point and normal evaluate exactly.
    crate::fx::lemma_tdiv_multiple(-(dist - radius), 65536);
    assert((-65536) * (dist - radius) == -(dist - radius) * 65536) by (nonlinear_arith);
    assert(ray_at_s(r, root1) == (Vec3 { x: 0, y: 0, z: radius as i64 }));
    crate::fx::lemma_tdiv_multiple(65536, radius);
    assert(radius * 65536 == 65536 * radius) by (nonlinear_arith);
    assert(
        v_div_scalar_s(
            v_sub_s(Vec3 { x: 0, y: 0, z: radius as i64 }, sp.center),
            sp.radius as int,
        ) == (Vec3 { x: 0, y: 0, z: 65536 }));
    assert((-65536) * 65536 < 0) by (nonlinear_arith);
}

} // verus!
