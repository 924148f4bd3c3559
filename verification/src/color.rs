//! Converting accumulated radiance to 8-bit pixels: square-root gamma,
//! clamp to just below one, scale to a byte.

use crate::fx::{fx_sqrt, fx_sqrt_s};
use crate::vec3::Vec3;
use vstd::prelude::*;

verus! {

/// Colors are vectors; the alias marks the radiometric use.
pub type Color = Vec3;

/// The byte one channel maps to: gamma by square root, clamped into
/// [0, 0.999], scaled by 256 and truncated.
pub open spec fn channel_byte_s(x: int) -> int {
    let s = fx_sqrt_s(x);
    let c = if s < 0 {
        0
    } else if s > 65470 {
        65470
    } else {
        s
    };
    c / 256
}

pub open spec fn write_color_s(c: Color) -> (int, int, int) {
    (channel_byte_s(c.x as int), channel_byte_s(c.y as int), channel_byte_s(c.z as int))
}

fn channel_byte(x: i64) -> (r: u8)
    ensures
        r as int == channel_byte_s(x as int),
{
    let s = fx_sqrt(x);
    let c: i64 = if s < 0 {
        0
    } else if s > 65470 {
        65470
    } else {
        s
    };
    ((c as u64) / 256) as u8
}

impl Color {
    /// The 8-bit RGB pixel for this color.
    pub fn write_color(&self) -> (r: (u8, u8, u8))
        ensures
            r.0 as int == write_color_s(*self).0,
            r.1 as int == write_color_s(*self).1,
            r.2 as int == write_color_s(*self).2,
    {
        (channel_byte(self.x), channel_byte(self.y), channel_byte(self.z))
    }
}

} // verus!
