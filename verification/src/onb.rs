//! An orthonormal basis about a given w direction, used to express
//! sampled directions in the frame of a surface normal.

use crate::fx::{fx_abs, FX_ONE};
use crate::vec3::{cross, cross_s, dot_s, unit_s, v_add_s, v_neg_s, v_scale_s, Vec3};
use vstd::prelude::*;

verus! {

/// |w.x| > 0.9 picks the helper axis that is farthest from w.
pub const ONB_AXIS_LIMIT: i64 = 58982;

#[derive(Clone, Copy, Debug, PartialEq, Eq, Structural)]
pub struct Onb {
    pub axis_u: Vec3,
    pub axis_v: Vec3,
    pub axis_w: Vec3,
}

pub open spec fn onb_helper_s(w: Vec3) -> Vec3 {
    if abs_i64_s(w.x) > ONB_AXIS_LIMIT as int {
        Vec3 { x: 0, y: FX_ONE, z: 0 }
    } else {
        Vec3 { x: FX_ONE, y: 0, z: 0 }
    }
}

pub open spec fn abs_i64_s(x: i64) -> int {
    if x < 0 {
        crate::fx::sat64(-(x as int))
    } else {
        x as int
    }
}

pub open spec fn onb_new_s(w: Vec3) -> Onb {
    let unit_w = unit_s(w);
    let a = onb_helper_s(w);
    let v = unit_s(cross_s(unit_w, a));
    let u = cross_s(unit_w, v);
    Onb { axis_u: u, axis_v: v, axis_w: unit_w }
}

/// The world-space vector with coordinates a in this basis.
pub open spec fn onb_local_s(b: Onb, a: Vec3) -> Vec3 {
    v_add_s(
        v_add_s(v_scale_s(b.axis_u, a.x as int), v_scale_s(b.axis_v, a.y as int)),
        v_scale_s(b.axis_w, a.z as int),
    )
}

impl Onb {
    pub fn new(w: &Vec3) -> (r: Onb)
        ensures
            r == onb_new_s(*w),
    {
        let unit_w = w.unit();
        let a = if fx_abs(w.x) > ONB_AXIS_LIMIT {
            Vec3 { x: 0, y: FX_ONE, z: 0 }
        } else {
            Vec3 { x: FX_ONE, y: 0, z: 0 }
        };
        let v = cross(&unit_w, &a).unit();
        let u = cross(&unit_w, &v);
        Onb { axis_u: u, axis_v: v, axis_w: unit_w }
    }

    pub fn u(&self) -> (r: Vec3)
        ensures
            r == self.axis_u,
    {
        self.axis_u
    }

    pub fn v(&self) -> (r: Vec3)
        ensures
            r == self.axis_v,
    {
        self.axis_v
    }

    pub fn w(&self) -> (r: Vec3)
        ensures
            r == self.axis_w,
    {
        self.axis_w
    }

    pub fn local(&self, a: &Vec3) -> (r: Vec3)
        ensures
            r == onb_local_s(*self, *a),
    {
        self.u().scale(a.x).add(self.v().scale(a.y)).add(self.w().scale(a.z))
    }
}

} // verus!
