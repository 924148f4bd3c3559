//! The record a successful intersection produces. Materials live in an
//! arena (a vector owned by the scene), so the record carries the index
//! of the material rather than a shared pointer.

use crate::ray::Ray;
use crate::vec3::{dot_s, v_neg_s, Point3, Vec3};
use vstd::prelude::*;

verus! {

#[derive(Clone, Copy, Debug, PartialEq, Eq, Structural)]
pub struct HitRecord {
    pub p: Point3,
    /// The shading normal, always flipped to oppose the incoming ray.
    pub normal: Vec3,
    /// Index of the material in the scene's material arena.
    pub mat: usize,
    pub t: i64,
    pub front_face: bool,
    pub u: i64,
    pub v: i64,
}

/// The record built from an outward surface normal: the stored normal
/// opposes the ray, and front_face says whether the ray arrived from
/// outside.
pub open spec fn hit_record_s(
    p: Point3,
    t: i64,
    outward_normal: Vec3,
    r: Ray,
    mat: usize,
    u: i64,
    v: i64,
) -> HitRecord {
    let front_face = dot_s(r.dir, outward_normal) < 0;
    HitRecord {
        p,
        normal: if front_face {
            outward_normal
        } else {
            v_neg_s(outward_normal)
        },
        mat,
        t,
        front_face,
        u,
        v,
    }
}

impl HitRecord {
    pub fn new(
        p: &Vec3,
        t: i64,
        outward_normal: &Vec3,
        r: &Ray,
        mat: usize,
        u: i64,
        v: i64,
    ) -> (rec: HitRecord)
        ensures
            rec == hit_record_s(*p, t, *outward_normal, *r, mat, u, v),
    {
        let front_face: bool = r.direction().dot(*outward_normal) < 0;
        let normal: Vec3 = if front_face {
            *outward_normal
        } else {
            outward_normal.neg()
        };
        HitRecord { p: *p, normal, mat, t, front_face, u, v }
    }
}

} // verus!
