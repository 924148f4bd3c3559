//! Axis-aligned bounding boxes and the slab intersection test.
//!
//! The slab test divides directly rather than multiplying by a
//! reciprocal: each axis yields a parametric window, the windows are
//! intersected with the query interval, and the box is hit when the
//! running window stays nonempty. An axis with a zero direction
//! component constrains the ray to originate between that axis' slabs.

use crate::fx::{fx_div, fx_div_s, fx_sub, sat64};
use crate::interval::{iv_expand_s, iv_union_s, Interval};
use crate::ray::Ray;
use crate::vec3::Point3;
use vstd::prelude::*;

verus! {

#[derive(Clone, Copy, Debug, PartialEq, Eq, Structural)]
pub struct AABB {
    pub x: Interval,
    pub y: Interval,
    pub z: Interval,
}

/// Raw thickness below which an axis interval is padded, so flat shapes
/// still pass the slab test.
pub const PAD_DELTA: i64 = 8;

/// An interval with its bounds in order.
pub open spec fn iv_ordered_s(iv: Interval) -> bool {
    iv.min <= iv.max
}

pub open spec fn aabb_ordered_s(b: AABB) -> bool {
    iv_ordered_s(b.x) && iv_ordered_s(b.y) && iv_ordered_s(b.z)
}

/// Interval inclusion.
pub open spec fn iv_contains_s(big: Interval, small: Interval) -> bool {
    big.min <= small.min && small.max <= big.max
}

/// Box inclusion, per axis.
pub open spec fn aabb_contains_s(big: AABB, small: AABB) -> bool {
    iv_contains_s(big.x, small.x) && iv_contains_s(big.y, small.y) && iv_contains_s(
        big.z,
        small.z,
    )
}

pub open spec fn mini(a: int, b: int) -> int {
    if a <= b {
        a
    } else {
        b
    }
}

pub open spec fn maxi(a: int, b: int) -> int {
    if a >= b {
        a
    } else {
        b
    }
}

pub open spec fn pad_iv_s(iv: Interval) -> Interval {
    if sat64(iv.max - iv.min) < PAD_DELTA {
        iv_expand_s(iv, PAD_DELTA as int)
    } else {
        iv
    }
}

pub open spec fn pad_s(b: AABB) -> AABB {
    AABB { x: pad_iv_s(b.x), y: pad_iv_s(b.y), z: pad_iv_s(b.z) }
}

/// The interval on one axis spanning two coordinates in either order.
pub open spec fn ordered_iv_s(a: i64, b: i64) -> Interval {
    if a <= b {
        Interval { min: a, max: b }
    } else {
        Interval { min: b, max: a }
    }
}

pub open spec fn axis_iv_s(b: AABB, n: int) -> Interval {
    if n == 1 {
        b.y
    } else if n == 2 {
        b.z
    } else {
        b.x
    }
}

/// One slab step: intersect the running parameter window (lo, hi) with
/// the window of one axis.
pub open spec fn axis_narrow_s(iv: Interval, o: int, d: int, lo: int, hi: int) -> (int, int) {
    if d == 0 {
        if iv.min < o && o < iv.max {
            (lo, hi)
        } else {
            (lo, lo)
        }
    } else {
        let t0 = fx_div_s(sat64(iv.min - o), d);
        let t1 = fx_div_s(sat64(iv.max - o), d);
        (maxi(lo, mini(t0, t1)), mini(hi, maxi(t0, t1)))
    }
}

/// The parameter window left after all three slab steps.
#[verifier::opaque]
pub open spec fn slab_window_s(b: AABB, r: Ray, lo: int, hi: int) -> (int, int) {
    let w1 = axis_narrow_s(b.x, r.orig_s().x as int, r.dir_s().x as int, lo, hi);
    let w2 = axis_narrow_s(b.y, r.orig_s().y as int, r.dir_s().y as int, w1.0, w1.1);
    axis_narrow_s(b.z, r.orig_s().z as int, r.dir_s().z as int, w2.0, w2.1)
}

/// Whether the ray meets the box within (lo, hi).
#[verifier::opaque]
pub open spec fn aabb_hit_s(b: AABB, r: Ray, lo: int, hi: int) -> bool {
    let w = slab_window_s(b, r, lo, hi);
    w.0 < w.1
}

/// An empty window stays empty under further slab steps.
proof fn lemma_narrow_keeps_empty(iv: Interval, o: int, d: int, lo: int, hi: int)
    requires
        hi <= lo,
    ensures
        axis_narrow_s(iv, o, d, lo, hi).1 <= axis_narrow_s(iv, o, d, lo, hi).0,
{
}

impl AABB {
    pub fn new(x: Interval, y: Interval, z: Interval) -> (r: AABB)
        ensures
            r == pad_s(AABB { x, y, z }),
    {
        let mut aabb = AABB { x, y, z };
        aabb.pad_to_minimums();
        aabb
    }

    pub fn zero() -> (r: AABB)
        ensures
            r == (AABB {
                x: Interval { min: 0, max: 0 },
                y: Interval { min: 0, max: 0 },
                z: Interval { min: 0, max: 0 },
            }),
    {
        AABB {
            x: Interval::new(0, 0),
            y: Interval::new(0, 0),
            z: Interval::new(0, 0),
        }
    }

    /// The padded box spanning two opposite corners.
    pub fn two_point(a: &Point3, b: &Point3) -> (r: AABB)
        ensures
            r == pad_s(
                AABB {
                    x: ordered_iv_s(a.x, b.x),
                    y: ordered_iv_s(a.y, b.y),
                    z: ordered_iv_s(a.z, b.z),
                },
            ),
    {
        let x = if a.x <= b.x {
            Interval::new(a.x, b.x)
        } else {
            Interval::new(b.x, a.x)
        };
        let y = if a.y <= b.y {
            Interval::new(a.y, b.y)
        } else {
            Interval::new(b.y, a.y)
        };
        let z = if a.z <= b.z {
            Interval::new(a.z, b.z)
        } else {
            Interval::new(b.z, a.z)
        };
        let mut aabb = AABB { x, y, z };
        aabb.pad_to_minimums();
        aabb
    }

    /// The smallest box holding both boxes, re-padded.
    pub fn two_aabb(box0: &AABB, box1: &AABB) -> (r: AABB)
        ensures
            r == pad_s(
                AABB {
                    x: iv_union_s(box0.x, box1.x),
                    y: iv_union_s(box0.y, box1.y),
                    z: iv_union_s(box0.z, box1.z),
                },
            ),
    {
        let mut aabb = AABB {
            x: Interval::two_intervals(&box0.x, &box1.x),
            y: Interval::two_intervals(&box0.y, &box1.y),
            z: Interval::two_intervals(&box0.z, &box1.z),
        };
        aabb.pad_to_minimums();
        aabb
    }

    pub fn axis_interval(&self, n: u32) -> (r: Interval)
        ensures
            r == axis_iv_s(*self, n as int),
    {
        if n == 1 {
            self.y
        } else if n == 2 {
            self.z
        } else {
            self.x
        }
    }

    /// The slab test: whether the ray meets this box at a parameter
    /// strictly inside (ray_t.min, ray_t.max).
    pub fn hit(&self, r: &Ray, ray_t: Interval) -> (res: bool)
        ensures
            res == aabb_hit_s(*self, *r, ray_t.min as int, ray_t.max as int),
    {
        proof {
            reveal(aabb_hit_s);
            reveal(slab_window_s);
        }
        let mut lo = ray_t.min;
        let mut hi = ray_t.max;
        let orig = *r.origin();
        let dir = *r.direction();

        // x axis
        if dir.x == 0 {
            if !(self.x.min < orig.x && orig.x < self.x.max) {
                proof {
                    let w1 = axis_narrow_s(self.x, orig.x as int, dir.x as int, lo as int, hi as int);
                    lemma_narrow_keeps_empty(self.y, orig.y as int, dir.y as int, w1.0, w1.1);
                    let w2 = axis_narrow_s(self.y, orig.y as int, dir.y as int, w1.0, w1.1);
                    lemma_narrow_keeps_empty(self.z, orig.z as int, dir.z as int, w2.0, w2.1);
                }
                return false;
            }
        } else {
            let t0 = fx_div(fx_sub(self.x.min, orig.x), dir.x);
            let t1 = fx_div(fx_sub(self.x.max, orig.x), dir.x);
            if t0 < t1 {
                if t0 > lo {
                    lo = t0;
                }
                if t1 < hi {
                    hi = t1;
                }
            } else {
                if t1 > lo {
                    lo = t1;
                }
                if t0 < hi {
                    hi = t0;
                }
            }
        }
        if hi <= lo {
            proof {
                let w1 = axis_narrow_s(self.x, orig.x as int, dir.x as int, ray_t.min as int, ray_t.max as int);
                lemma_narrow_keeps_empty(self.y, orig.y as int, dir.y as int, w1.0, w1.1);
                let w2 = axis_narrow_s(self.y, orig.y as int, dir.y as int, w1.0, w1.1);
                lemma_narrow_keeps_empty(self.z, orig.z as int, dir.z as int, w2.0, w2.1);
            }
            return false;
        }

        // y axis
        if dir.y == 0 {
            if !(self.y.min < orig.y && orig.y < self.y.max) {
                proof {
                    let w1 = axis_narrow_s(self.x, orig.x as int, dir.x as int, ray_t.min as int, ray_t.max as int);
                    let w2 = axis_narrow_s(self.y, orig.y as int, dir.y as int, w1.0, w1.1);
                    lemma_narrow_keeps_empty(self.z, orig.z as int, dir.z as int, w2.0, w2.1);
                }
                return false;
            }
        } else {
            let t0 = fx_div(fx_sub(self.y.min, orig.y), dir.y);
            let t1 = fx_div(fx_sub(self.y.max, orig.y), dir.y);
            if t0 < t1 {
                if t0 > lo {
                    lo = t0;
                }
                if t1 < hi {
                    hi = t1;
                }
            } else {
                if t1 > lo {
                    lo = t1;
                }
                if t0 < hi {
                    hi = t0;
                }
            }
        }
        if hi <= lo {
            proof {
                let w1 = axis_narrow_s(self.x, orig.x as int, dir.x as int, ray_t.min as int, ray_t.max as int);
                let w2 = axis_narrow_s(self.y, orig.y as int, dir.y as int, w1.0, w1.1);
                lemma_narrow_keeps_empty(self.z, orig.z as int, dir.z as int, w2.0, w2.1);
            }
            return false;
        }

        // z axis
        if dir.z == 0 {
            if !(self.z.min < orig.z && orig.z < self.z.max) {
                return false;
            }
        } else {
            let t0 = fx_div(fx_sub(self.z.min, orig.z), dir.z);
            let t1 = fx_div(fx_sub(self.z.max, orig.z), dir.z);
            if t0 < t1 {
                if t0 > lo {
                    lo = t0;
                }
                if t1 < hi {
                    hi = t1;
                }
            } else {
                if t1 > lo {
                    lo = t1;
                }
                if t0 < hi {
                    hi = t0;
                }
            }
        }
        lo < hi
    }

    /// The index (0, 1, 2) of the axis of greatest extent.
    pub fn longest_axis(&self) -> (r: u32)
        ensures
            r as int == longest_axis_s(*self),
    {
        let size_x = self.x.size();
        let size_y = self.y.size();
        let size_z = self.z.size();
        if size_x > size_y {
            if size_x > size_z {
                0
            } else {
                2
            }
        } else if size_y > size_z {
            1
        } else {
            2
        }
    }

    /// Pad every axis thinner than the minimum thickness.
    pub fn pad_to_minimums(&mut self)
        ensures
            *final(self) == pad_s(*old(self)),
    {
        let delta = PAD_DELTA;
        if self.x.size() < delta {
            self.x = self.x.expand(delta);
        }
        if self.y.size() < delta {
            self.y = self.y.expand(delta);
        }
        if self.z.size() < delta {
            self.z = self.z.expand(delta);
        }
    }
}

pub open spec fn longest_axis_s(b: AABB) -> int {
    let sx = sat64(b.x.max - b.x.min);
    let sy = sat64(b.y.max - b.y.min);
    let sz = sat64(b.z.max - b.z.min);
    if sx > sy {
        if sx > sz {
            0
        } else {
            2
        }
    } else if sy > sz {
        1
    } else {
        2
    }
}

/// Padding keeps an ordered box ordered.
pub proof fn lemma_pad_ordered(b: AABB)
    requires
        aabb_ordered_s(b),
    ensures
        aabb_ordered_s(pad_s(b)),
{
}

/// The union of two ordered boxes is ordered.
pub proof fn lemma_union_ordered(a: AABB, b: AABB)
    requires
        aabb_ordered_s(a),
        aabb_ordered_s(b),
    ensures
        aabb_ordered_s(
            AABB {
                x: iv_union_s(a.x, b.x),
                y: iv_union_s(a.y, b.y),
                z: iv_union_s(a.z, b.z),
            },
        ),
{
}

/// A box built over two corners and padded is ordered.
pub proof fn lemma_two_point_ordered(a: Point3, b: Point3)
    ensures
        aabb_ordered_s(
            pad_s(
                AABB {
                    x: ordered_iv_s(a.x, b.x),
                    y: ordered_iv_s(a.y, b.y),
                    z: ordered_iv_s(a.z, b.z),
                },
            ),
        ),
{
}

/// A ray with a zero x direction component whose origin is not
/// strictly between the x slabs misses: an origin exactly on a slab
/// face counts as outside, as the degenerate division does in the
/// floating-point recipe. The other axes behave alike by symmetry of
/// the definition.
pub proof fn lemma_slab_zero_component(b: AABB, r: Ray, lo: int, hi: int)
    requires
        r.dir.x == 0,
        !(b.x.min < r.orig.x && r.orig.x < b.x.max),
    ensures
        !aabb_hit_s(b, r, lo, hi),
{
    reveal(aabb_hit_s);
    reveal(slab_window_s);
    let w1 = axis_narrow_s(b.x, r.orig.x as int, r.dir.x as int, lo, hi);
    lemma_narrow_keeps_empty(b.y, r.orig.y as int, r.dir.y as int, w1.0, w1.1);
    let w2 = axis_narrow_s(b.y, r.orig.y as int, r.dir.y as int, w1.0, w1.1);
    lemma_narrow_keeps_empty(b.z, r.orig.z as int, r.dir.z as int, w2.0, w2.1);
}

/// The parametric entry of one axis: the smaller of the two plane
/// quotients.
pub open spec fn axis_entry_s(iv: Interval, o: int, d: int) -> int {
    mini(fx_div_s(sat64(iv.min - o), d), fx_div_s(sat64(iv.max - o), d))
}

/// The parametric exit of one axis: the larger of the two quotients.
pub open spec fn axis_exit_s(iv: Interval, o: int, d: int) -> int {
    maxi(fx_div_s(sat64(iv.min - o), d), fx_div_s(sat64(iv.max - o), d))
}

/// For a ray with no zero direction component, the slab test computes
/// exactly the query interval clipped to the box's parametric window:
/// the window runs from max(lo, entry) to min(hi, exit), where entry
/// and exit are the extremes of the per-axis plane quotients, and the
/// box is hit exactly when that clipped window is nonempty.
pub proof fn lemma_slab_window_exact(b: AABB, r: Ray, lo: int, hi: int)
    requires
        r.dir.x != 0,
        r.dir.y != 0,
        r.dir.z != 0,
    ensures
        ({
            let entry = maxi(
                maxi(
                    axis_entry_s(b.x, r.orig.x as int, r.dir.x as int),
                    axis_entry_s(b.y, r.orig.y as int, r.dir.y as int),
                ),
                axis_entry_s(b.z, r.orig.z as int, r.dir.z as int),
            );
            let exit = mini(
                mini(
                    axis_exit_s(b.x, r.orig.x as int, r.dir.x as int),
                    axis_exit_s(b.y, r.orig.y as int, r.dir.y as int),
                ),
                axis_exit_s(b.z, r.orig.z as int, r.dir.z as int),
            );
            slab_window_s(b, r, lo, hi) == (maxi(lo, entry), mini(hi, exit)) && (aabb_hit_s(
                b,
                r,
                lo,
                hi,
            ) <==> maxi(lo, entry) < mini(hi, exit))
        }),
{
    reveal(aabb_hit_s);
    reveal(slab_window_s);
}

} // verus!
