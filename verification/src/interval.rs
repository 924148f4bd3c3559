//! A closed scalar range [min, max], used both to clip ray parameters and
//! to clamp texture coordinates.

use crate::fx::{fx_add, fx_half, fx_sub, sat64, tdiv};
use vstd::prelude::*;

verus! {

#[derive(Clone, Copy, Debug, PartialEq, Eq, Structural)]
pub struct Interval {
    pub min: i64,
    pub max: i64,
}

/// The interval grown symmetrically by delta/2 on each side.
pub open spec fn iv_expand_s(iv: Interval, delta: int) -> Interval {
    Interval {
        min: sat64(iv.min - tdiv(delta, 2)) as i64,
        max: sat64(iv.max + tdiv(delta, 2)) as i64,
    }
}

/// The smallest interval holding both arguments.
pub open spec fn iv_union_s(a: Interval, b: Interval) -> Interval {
    Interval {
        min: if a.min <= b.min {
            a.min
        } else {
            b.min
        },
        max: if a.max >= b.max {
            a.max
        } else {
            b.max
        },
    }
}

impl Interval {
    pub fn new(min: i64, max: i64) -> (r: Interval)
        ensures
            r == (Interval { min, max }),
    {
        Interval { min, max }
    }

    pub fn size(&self) -> (r: i64)
        ensures
            r as int == sat64(self.max - self.min),
    {
        fx_sub(self.max, self.min)
    }

    pub fn contains(&self, x: i64) -> (r: bool)
        ensures
            r == (self.min <= x && x <= self.max),
    {
        self.min <= x && x <= self.max
    }

    pub fn surrounds(&self, x: i64) -> (r: bool)
        ensures
            r == (self.min < x && x < self.max),
    {
        self.min < x && x < self.max
    }

    pub fn clamp(&self, x: i64) -> (r: i64)
        ensures
            r as int == if x < self.min {
                self.min as int
            } else if x > self.max {
                self.max as int
            } else {
                x as int
            },
    {
        if x < self.min {
            self.min
        } else if x > self.max {
            self.max
        } else {
            x
        }
    }

    pub fn expand(&self, delta: i64) -> (r: Interval)
        ensures
            r == iv_expand_s(*self, delta as int),
    {
        let padding = fx_half(delta);
        Interval { min: fx_sub(self.min, padding), max: fx_add(self.max, padding) }
    }

    pub fn two_intervals(a: &Interval, b: &Interval) -> (r: Interval)
        ensures
            r == iv_union_s(*a, *b),
    {
        Interval {
            min: if a.min <= b.min {
                a.min
            } else {
                b.min
            },
            max: if a.max >= b.max {
                a.max
            } else {
                b.max
            },
        }
    }
}

} // verus!
