//! A constant-density participating medium bounded by a surface: fog.
//! A ray entering the boundary scatters inside it when an
//! exponentially distributed free-flight distance — minus the
//! logarithm of a uniform draw, over the density — falls short of the
//! distance to the exit.
//!
//! The free-flight draw happens inside the hit test, so the medium
//! cannot stand among the scene primitives, whose hit contracts are
//! exact deterministic functions; it is queried directly, with the
//! sampler passed in, and the deterministic core `hit_with_sample` is
//! verified exactly for every value of the draw.

use crate::bvh::{prim_hit_s, Prim};
use crate::fx::{fx_add, fx_div, fx_div_s, fx_max, fx_min, fx_mul, fx_mul_s, sat64, FX_ONE};
use crate::hittable::HitRecord;
use crate::interval::Interval;
use crate::ray::{ray_at_s, Ray};
use crate::rng::Sampler;
use crate::trig::{fx_neg_ln, fx_neg_ln_s};
use crate::vec3::{length_s, Vec3};
use vstd::prelude::*;

verus! {

pub struct ConstantMedium {
    pub boundary: Box<Prim>,
    /// The reciprocal of the density coefficient.
    pub inv_density: i64,
    /// Index of the phase-function material in the scene's arena.
    pub phase_function: usize,
}

/// The whole pipeline for one uniform draw u: the entry and exit
/// parameters from two boundary intersections, clipped to the query
/// interval; a scatter exactly when the free-flight distance
/// (-ln u)/density lands inside the segment, at the corresponding
/// parameter, with a fixed arbitrary normal and the phase function's
/// material.
pub open spec fn medium_hit_s(cm: ConstantMedium, r: Ray, lo: int, hi: int, u: int) -> Option<
    HitRecord,
> {
    match prim_hit_s(*cm.boundary, r, i64::MIN as int, i64::MAX as int) {
        None => None,
        Some(rec1) => match prim_hit_s(
            *cm.boundary,
            r,
            sat64(rec1.t + 66),
            i64::MAX as int,
        ) {
            None => None,
            Some(rec2) => {
                let t1 = if rec1.t as int >= lo {
                    rec1.t as int
                } else {
                    lo
                };
                let t2 = if rec2.t as int <= hi {
                    rec2.t as int
                } else {
                    hi
                };
                if t1 >= t2 {
                    None
                } else {
                    let t1c = if t1 >= 0 {
                        t1
                    } else {
                        0
                    };
                    let ray_length = length_s(r.dir);
                    let inside = fx_mul_s(sat64(t2 - t1c), ray_length);
                    let hit_distance = fx_mul_s(cm.inv_density as int, fx_neg_ln_s(u));
                    if hit_distance > inside {
                        None
                    } else {
                        let t = sat64(t1c + fx_div_s(hit_distance, ray_length));
                        Some(
                            HitRecord {
                                p: ray_at_s(r, t),
                                normal: Vec3 { x: FX_ONE, y: 0, z: 0 },
                                mat: cm.phase_function,
                                t: t as i64,
                                front_face: true,
                                u: 0,
                                v: 0,
                            },
                        )
                    }
                }
            },
        },
    }
}

impl ConstantMedium {
    pub fn new(boundary: Prim, density: i64, phase_function: usize) -> (cm: ConstantMedium)
        ensures
            *cm.boundary == boundary,
            cm.inv_density as int == fx_div_s(FX_ONE as int, density as int),
            cm.phase_function == phase_function,
    {
        ConstantMedium {
            boundary: Box::new(boundary),
            inv_density: fx_div(FX_ONE, density),
            phase_function,
        }
    }

    /// The deterministic core, exact for every value of the uniform
    /// draw.
    pub fn hit_with_sample(&self, r: &Ray, ray_t: Interval, u: i64) -> (res: Option<HitRecord>)
        ensures
            res == medium_hit_s(*self, *r, ray_t.min as int, ray_t.max as int, u as int),
    {
        let rec1 = match self.boundary.hit(r, Interval::new(i64::MIN, i64::MAX)) {
            Some(rec1) => rec1,
            None => {
                return None;
            },
        };
        let rec2 = match self.boundary.hit(r, Interval::new(fx_add(rec1.t, 66), i64::MAX)) {
            Some(rec2) => rec2,
            None => {
                return None;
            },
        };
        let t1 = fx_max(rec1.t, ray_t.min);
        let t2 = fx_min(rec2.t, ray_t.max);
        if t1 >= t2 {
            return None;
        }
        let t1c = fx_max(t1, 0);
        let ray_length = r.direction().length();
        let inside = fx_mul(crate::fx::fx_sub(t2, t1c), ray_length);
        let hit_distance = fx_mul(self.inv_density, fx_neg_ln(u));
        if hit_distance > inside {
            return None;
        }
        let t = fx_add(t1c, fx_div(hit_distance, ray_length));
        Some(
            HitRecord {
                p: r.at(t),
                normal: Vec3 { x: FX_ONE, y: 0, z: 0 },
                mat: self.phase_function,
                t,
                front_face: true,
                u: 0,
                v: 0,
            },
        )
    }

    /// Scatter against a fresh uniform draw; everything but the draw is
    /// pinned by the deterministic core.
    pub fn hit(&self, r: &Ray, ray_t: Interval, s: &mut Sampler) -> (res: Option<HitRecord>)
        ensures
            exists|u: int|
                0 <= u < FX_ONE && res == #[trigger] medium_hit_s(
                    *self,
                    *r,
                    ray_t.min as int,
                    ray_t.max as int,
                    u,
                ),
    {
        let u = s.unit();
        let res = self.hit_with_sample(r, ray_t, u);
        proof {
            assert(0 <= u < FX_ONE && res == medium_hit_s(
                *self,
                *r,
                ray_t.min as int,
                ray_t.max as int,
                u as int,
            ));
        }
        res
    }
}

} // verus!
