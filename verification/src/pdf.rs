//! Sampling densities over directions, used for light-importance
//! sampling: the uniform sphere, the cosine-weighted hemisphere about a
//! basis, and the density induced by a set of scene lights.

use crate::fx::{fx_div, fx_div_s, fx_max, sat64, FX_ONE};
use crate::hittable_list::{list_pdf_sum_s, object_random_ok, HittableList};
use crate::onb::{onb_local_s, onb_new_s, Onb};
use crate::rng::Sampler;
use crate::trig::{FX_FOUR_PI, FX_PI};
use crate::vec3::{dot_s, random_cosine_direction, unit_s, Point3, Vec3};
use vstd::prelude::*;

verus! {

/// The uniform density over the whole sphere of directions.
pub struct SpherePDF {}

impl SpherePDF {
    pub fn new() -> (p: SpherePDF) {
        SpherePDF {  }
    }

    /// Every direction has the same weight, 1/(4 pi).
    pub fn value(&self, _dir: &Vec3) -> (r: i64)
        ensures
            r as int == fx_div_s(FX_ONE as int, FX_FOUR_PI as int),
    {
        fx_div(FX_ONE, FX_FOUR_PI)
    }

    pub fn generate(&self, s: &mut Sampler) -> (r: Vec3)
        ensures
            exists|p: Vec3| 1024 <= #[trigger] dot_s(p, p) < FX_ONE && r == unit_s(p),
    {
        Vec3::random_unit_vector(s)
    }
}

/// The cosine-weighted density about the w axis of a basis.
pub struct CosinePDF {
    pub uvw: Onb,
}

impl CosinePDF {
    pub fn new(w: &Vec3) -> (p: CosinePDF)
        ensures
            p.uvw == onb_new_s(*w),
    {
        CosinePDF { uvw: Onb::new(w) }
    }

    /// cos(theta)/pi for directions above the plane, zero below.
    pub fn value(&self, dir: &Vec3) -> (r: i64)
        ensures
            r as int == if fx_div_s(dot_s(unit_s(*dir), self.uvw.axis_w), FX_PI as int) >= 0 {
                fx_div_s(dot_s(unit_s(*dir), self.uvw.axis_w), FX_PI as int)
            } else {
                0
            },
    {
        let cosine_theta = dir.unit().dot(self.uvw.w());
        fx_max(0, fx_div(cosine_theta, FX_PI))
    }

    pub fn generate(&self, s: &mut Sampler) -> (r: Vec3)
        ensures
            exists|d: Vec3| d.z >= 0 && r == #[trigger] onb_local_s(self.uvw, d),
    {
        let d = random_cosine_direction(s);
        let r = self.uvw.local(&d);
        proof {
            assert(d.z >= 0 && r == onb_local_s(self.uvw, d));
        }
        r
    }
}

/// The density and sampler induced by a set of lights.
pub struct HittablePDF<'a> {
    pub objects: &'a HittableList,
    pub origin: Point3,
}

impl<'a> HittablePDF<'a> {
    pub fn new(objects: &'a HittableList, origin: &Point3) -> (p: HittablePDF<'a>)
        ensures
            p.objects == objects,
            p.origin == *origin,
    {
        HittablePDF { objects, origin: *origin }
    }

    /// The average of the lights' importance weights for a direction.
    pub fn value(&self, dir: &Vec3) -> (r: i64)
        requires
            0 < self.objects.objects@.len() < 0x100000000,
        ensures
            r as int == fx_div_s(
                list_pdf_sum_s(
                    self.objects.objects@,
                    self.origin,
                    *dir,
                    self.objects.objects@.len() as int,
                ),
                sat64(self.objects.objects@.len() * (FX_ONE as int)),
            ),
    {
        self.objects.pdf_value(&self.origin, dir)
    }

    /// A direction toward one light chosen uniformly.
    pub fn generate(&self, s: &mut Sampler) -> (r: Vec3)
        requires
            0 < self.objects.objects@.len() < 0x100000000,
        ensures
            exists|i: int|
                0 <= i < self.objects.objects@.len() && object_random_ok(
                    #[trigger] self.objects.objects@[i],
                    self.origin,
                    r,
                ),
    {
        self.objects.random(&self.origin, s)
    }
}

} // verus!
