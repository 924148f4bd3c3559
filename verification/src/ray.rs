//! A ray: origin, direction, and the time of the sample that cast it
//! (for motion blur).

use crate::vec3::{v_add_s, v_scale_s, Point3, Vec3};
use vstd::prelude::*;

verus! {

#[derive(Clone, Copy, Debug, PartialEq, Eq, Structural)]
pub struct Ray {
    pub orig: Point3,
    pub dir: Vec3,
    pub tm: i64,
}

/// The point the ray reaches at parameter t.
pub open spec fn ray_at_s(r: Ray, t: int) -> Point3 {
    v_add_s(r.orig, v_scale_s(r.dir, t))
}

impl Ray {
    pub fn new(origin: Point3, direction: Vec3, tm: i64) -> (r: Ray)
        ensures
            r == (Ray { orig: origin, dir: direction, tm }),
    {
        Ray { orig: origin, dir: direction, tm }
    }

    pub fn origin(&self) -> (r: &Point3)
        ensures
            *r == self.orig,
    {
        &self.orig
    }

    pub fn direction(&self) -> (r: &Vec3)
        ensures
            *r == self.dir,
    {
        &self.dir
    }

    pub fn at(&self, t: i64) -> (r: Point3)
        ensures
            r == ray_at_s(*self, t as int),
    {
        self.orig.add(self.dir.scale(t))
    }

    pub fn time(&self) -> (r: i64)
        ensures
            r == self.tm,
    {
        self.tm
    }

    /// The origin, for spec use.
    pub open spec fn orig_s(&self) -> Point3 {
        self.orig
    }

    /// The direction, for spec use.
    pub open spec fn dir_s(&self) -> Vec3 {
        self.dir
    }

    /// The time, for spec use.
    pub open spec fn time_s(&self) -> i64 {
        self.tm
    }
}

} // verus!
