//! Instance decorators: translation and rotation about the y axis.
//! Each wraps a child primitive, moves the incoming ray into the
//! child's object space, delegates, and moves the resulting hit back
//! into world space; the world-space box is computed once at
//! construction.

use crate::aabb::{ordered_iv_s, pad_s, AABB};
use crate::fx::{fx_add, fx_mul, fx_mul_s, fx_neg, fx_sub, sat64, tdiv};
use crate::hittable::HitRecord;
use crate::ray::Ray;
use crate::trig::{fx_cos, fx_cos_s, fx_sin, fx_sin_s, FX_PI};
use crate::vec3::{v_add_s, v_sub_s, Vec3};
use vstd::prelude::*;

verus! {

pub struct Translate {
    pub child: Box<crate::bvh::Prim>,
    pub offset: Vec3,
    pub bbox: AABB,
}

pub struct RotateY {
    pub child: Box<crate::bvh::Prim>,
    pub sin_theta: i64,
    pub cos_theta: i64,
    pub bbox: AABB,
}

/// The box of a translated child: each axis interval shifted.
pub open spec fn translate_bbox_s(child: AABB, offset: Vec3) -> AABB {
    AABB {
        x: crate::interval::Interval {
            min: sat64(child.x.min + offset.x) as i64,
            max: sat64(child.x.max + offset.x) as i64,
        },
        y: crate::interval::Interval {
            min: sat64(child.y.min + offset.y) as i64,
            max: sat64(child.y.max + offset.y) as i64,
        },
        z: crate::interval::Interval {
            min: sat64(child.z.min + offset.z) as i64,
            max: sat64(child.z.max + offset.z) as i64,
        },
    }
}

/// A translated hit: the child is queried along the shifted-back ray,
/// and a hit point moves forward by the offset; parameter, normal and
/// material are untouched.
pub open spec fn translate_hit_s(t: Translate, r: Ray, lo: int, hi: int) -> Option<HitRecord>
    decreases t,
{
    let moved = Ray { orig: v_sub_s(r.orig, t.offset), dir: r.dir, tm: r.tm };
    match crate::bvh::prim_hit_s(*t.child, moved, lo, hi) {
        Some(h) => Some(
            HitRecord {
                p: v_add_s(h.p, t.offset),
                normal: h.normal,
                mat: h.mat,
                t: h.t,
                front_face: h.front_face,
                u: h.u,
                v: h.v,
            },
        ),
        None => None,
    }
}

/// Rotate a vector about the y axis into object space.
pub open spec fn rot_in_s(sin_t: int, cos_t: int, v: Vec3) -> Vec3 {
    Vec3 {
        x: sat64(fx_mul_s(cos_t, v.x as int) - fx_mul_s(sin_t, v.z as int)) as i64,
        y: v.y,
        z: sat64(fx_mul_s(sin_t, v.x as int) + fx_mul_s(cos_t, v.z as int)) as i64,
    }
}

/// Rotate a vector about the y axis back into world space.
pub open spec fn rot_out_s(sin_t: int, cos_t: int, v: Vec3) -> Vec3 {
    Vec3 {
        x: sat64(fx_mul_s(cos_t, v.x as int) + fx_mul_s(sin_t, v.z as int)) as i64,
        y: v.y,
        z: sat64(fx_mul_s(cos_t, v.z as int) - fx_mul_s(sin_t, v.x as int)) as i64,
    }
}

/// A rotated hit: the child is queried along the object-space ray, and
/// the hit point and normal rotate back to world space.
pub open spec fn rotate_y_hit_s(ry: RotateY, r: Ray, lo: int, hi: int) -> Option<HitRecord>
    decreases ry,
{
    let s = ry.sin_theta as int;
    let c = ry.cos_theta as int;
    let rotated = Ray { orig: rot_in_s(s, c, r.orig), dir: rot_in_s(s, c, r.dir), tm: r.tm };
    match crate::bvh::prim_hit_s(*ry.child, rotated, lo, hi) {
        Some(h) => Some(
            HitRecord {
                p: rot_out_s(s, c, h.p),
                normal: rot_out_s(s, c, h.normal),
                mat: h.mat,
                t: h.t,
                front_face: h.front_face,
                u: h.u,
                v: h.v,
            },
        ),
        None => None,
    }
}

/// Sine and cosine of an angle given in degrees, by the polynomial
/// approximations over the angle's magnitude.
pub open spec fn angle_sin_s(deg: int) -> int {
    let rad = crate::fx::fx_div_s(fx_mul_s(deg, FX_PI as int), 11796480);
    if rad < 0 {
        sat64(-fx_sin_s(sat64(-rad)))
    } else {
        fx_sin_s(rad)
    }
}

pub open spec fn angle_cos_s(deg: int) -> int {
    let rad = crate::fx::fx_div_s(fx_mul_s(deg, FX_PI as int), 11796480);
    if rad < 0 {
        fx_cos_s(sat64(-rad))
    } else {
        fx_cos_s(rad)
    }
}

/// The world-space box of a rotated child: the extremes of the child
/// box's corners after rotation, padded; y is untouched.
pub open spec fn rotate_bbox_s(child: AABB, s: int, c: int) -> AABB {
    let x00 = sat64(fx_mul_s(c, child.x.min as int) + fx_mul_s(s, child.z.min as int));
    let x01 = sat64(fx_mul_s(c, child.x.min as int) + fx_mul_s(s, child.z.max as int));
    let x10 = sat64(fx_mul_s(c, child.x.max as int) + fx_mul_s(s, child.z.min as int));
    let x11 = sat64(fx_mul_s(c, child.x.max as int) + fx_mul_s(s, child.z.max as int));
    let z00 = sat64(fx_mul_s(c, child.z.min as int) - fx_mul_s(s, child.x.min as int));
    let z01 = sat64(fx_mul_s(c, child.z.max as int) - fx_mul_s(s, child.x.min as int));
    let z10 = sat64(fx_mul_s(c, child.z.min as int) - fx_mul_s(s, child.x.max as int));
    let z11 = sat64(fx_mul_s(c, child.z.max as int) - fx_mul_s(s, child.x.max as int));
    pad_s(
        AABB {
            x: crate::interval::Interval {
                min: crate::aabb::mini(crate::aabb::mini(x00, x01), crate::aabb::mini(x10, x11)) as i64,
                max: crate::aabb::maxi(crate::aabb::maxi(x00, x01), crate::aabb::maxi(x10, x11)) as i64,
            },
            y: child.y,
            z: crate::interval::Interval {
                min: crate::aabb::mini(crate::aabb::mini(z00, z01), crate::aabb::mini(z10, z11)) as i64,
                max: crate::aabb::maxi(crate::aabb::maxi(z00, z01), crate::aabb::maxi(z10, z11)) as i64,
            },
        },
    )
}

impl Translate {
    pub fn new(object: crate::bvh::Prim, offset: &Vec3) -> (t: Translate)
        ensures
            *t.child == object,
            t.offset == *offset,
            t.bbox == translate_bbox_s(crate::bvh::prim_bbox_s(object), *offset),
    {
        let child_box = object.bounding_box();
        let bbox = AABB {
            x: crate::interval::Interval {
                min: fx_add(child_box.x.min, offset.x),
                max: fx_add(child_box.x.max, offset.x),
            },
            y: crate::interval::Interval {
                min: fx_add(child_box.y.min, offset.y),
                max: fx_add(child_box.y.max, offset.y),
            },
            z: crate::interval::Interval {
                min: fx_add(child_box.z.min, offset.z),
                max: fx_add(child_box.z.max, offset.z),
            },
        };
        Translate { child: Box::new(object), offset: *offset, bbox }
    }
}

impl RotateY {
    /// Wrap a child, rotated by the given angle in degrees about y.
    pub fn new(object: crate::bvh::Prim, angle: i64) -> (t: RotateY)
        ensures
            *t.child == object,
            t.sin_theta as int == angle_sin_s(angle as int),
            t.cos_theta as int == angle_cos_s(angle as int),
            t.bbox == rotate_bbox_s(
                crate::bvh::prim_bbox_s(object),
                angle_sin_s(angle as int),
                angle_cos_s(angle as int),
            ),
    {
        let rad = crate::fx::fx_div(fx_mul(angle, FX_PI), 11796480);
        let (sin_theta, cos_theta) = if rad < 0 {
            (fx_neg(fx_sin(fx_neg(rad))), fx_cos(fx_neg(rad)))
        } else {
            (fx_sin(rad), fx_cos(rad))
        };
        let cb = object.bounding_box();
        let x00 = fx_add(fx_mul(cos_theta, cb.x.min), fx_mul(sin_theta, cb.z.min));
        let x01 = fx_add(fx_mul(cos_theta, cb.x.min), fx_mul(sin_theta, cb.z.max));
        let x10 = fx_add(fx_mul(cos_theta, cb.x.max), fx_mul(sin_theta, cb.z.min));
        let x11 = fx_add(fx_mul(cos_theta, cb.x.max), fx_mul(sin_theta, cb.z.max));
        let z00 = fx_sub(fx_mul(cos_theta, cb.z.min), fx_mul(sin_theta, cb.x.min));
        let z01 = fx_sub(fx_mul(cos_theta, cb.z.max), fx_mul(sin_theta, cb.x.min));
        let z10 = fx_sub(fx_mul(cos_theta, cb.z.min), fx_mul(sin_theta, cb.x.max));
        let z11 = fx_sub(fx_mul(cos_theta, cb.z.max), fx_mul(sin_theta, cb.x.max));
        let mut bbox = AABB {
            x: crate::interval::Interval {
                min: min4(x00, x01, x10, x11),
                max: max4(x00, x01, x10, x11),
            },
            y: cb.y,
            z: crate::interval::Interval {
                min: min4(z00, z01, z10, z11),
                max: max4(z00, z01, z10, z11),
            },
        };
        bbox.pad_to_minimums();
        RotateY { child: Box::new(object), sin_theta, cos_theta, bbox }
    }
}

fn min4(a: i64, b: i64, c: i64, d: i64) -> (r: i64)
    ensures
        r as int == crate::aabb::mini(
            crate::aabb::mini(a as int, b as int),
            crate::aabb::mini(c as int, d as int),
        ),
{
    let ab = if a <= b {
        a
    } else {
        b
    };
    let cd = if c <= d {
        c
    } else {
        d
    };
    if ab <= cd {
        ab
    } else {
        cd
    }
}

fn max4(a: i64, b: i64, c: i64, d: i64) -> (r: i64)
    ensures
        r as int == crate::aabb::maxi(
            crate::aabb::maxi(a as int, b as int),
            crate::aabb::maxi(c as int, d as int),
        ),
{
    let ab = if a >= b {
        a
    } else {
        b
    };
    let cd = if c >= d {
        c
    } else {
        d
    };
    if ab >= cd {
        ab
    } else {
        cd
    }
}

} // verus!
