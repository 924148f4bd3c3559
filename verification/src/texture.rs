//! Texture providers: a solid color, a spatial checker, an image lookup
//! with gamma decoding, and Perlin value noise.

use crate::fx::{fx_div, fx_div_s, fx_mul, fx_mul_s, fx_sub, sat64, FX_ONE};
use crate::perlin::{perlin_noise_s, perlin_wf, Perlin};
use crate::rng::Sampler;
use crate::vec3::{v_scale_s, Point3, Vec3};
use vstd::prelude::*;

verus! {

#[derive(Clone, Copy, Debug, PartialEq, Eq, Structural)]
pub struct SolidColor {
    pub color_value: Vec3,
}

pub struct CheckerTexture {
    pub inv_width: i64,
    pub odd: Box<Texture>,
    pub even: Box<Texture>,
}

/// Image pixels as plain data: width, height, and 8-bit RGB rows from
/// the top; whoever decodes an image file hands the bytes in.
pub struct ImageTexture {
    pub width: usize,
    pub height: usize,
    pub data: Vec<u8>,
}

pub struct NoiseTexture {
    pub noise: Perlin,
    pub scale: i64,
}

pub enum Texture {
    Solid(SolidColor),
    Checker(CheckerTexture),
    Image(ImageTexture),
    Noise(NoiseTexture),
}

/// Well-formedness: image data covers the stated size, noise tables are
/// full, checker children are themselves well formed.
pub open spec fn texture_wf(t: Texture) -> bool
    decreases t,
{
    match t {
        Texture::Solid(_) => true,
        Texture::Checker(c) => texture_wf(*c.odd) && texture_wf(*c.even),
        Texture::Image(img) => img.data@.len() == img.width * img.height * 3 && img.width
            < 0x10000000 && img.height < 0x10000000,
        Texture::Noise(n) => perlin_wf(n.noise),
    }
}

/// Map a coordinate in [0, 1] to a pixel index below n.
pub open spec fn pixel_index_s(u: int, n: int) -> int {
    let i = (u * n) / 65536;
    if i >= n {
        n - 1
    } else {
        i
    }
}

/// A color channel byte decoded to linear light: scaled to [0, 1],
/// then squared.
pub open spec fn gamma_to_linear_s(b: int) -> int {
    let s = fx_div_s(sat64(b * 65536), 16711680);
    if s > 0 {
        fx_mul_s(s, s)
    } else {
        0
    }
}

pub open spec fn clamp01_s(x: int) -> int {
    if x < 0 {
        0
    } else if x > FX_ONE as int {
        FX_ONE as int
    } else {
        x
    }
}

/// The color a texture yields at coordinates (u, v) and point p.
pub open spec fn texture_value_s(t: Texture, u: i64, v: i64, p: Point3) -> Vec3
    decreases t,
{
    match t {
        Texture::Solid(c) => c.color_value,
        Texture::Checker(c) => {
            let xi = crate::fx::tdiv(fx_mul_s(c.inv_width as int, p.x as int), 65536);
            let yi = crate::fx::tdiv(fx_mul_s(c.inv_width as int, p.y as int), 65536);
            let zi = crate::fx::tdiv(fx_mul_s(c.inv_width as int, p.z as int), 65536);
            if (xi + yi + zi) % 2 == 0 {
                texture_value_s(*c.even, u, v, p)
            } else {
                texture_value_s(*c.odd, u, v, p)
            }
        },
        Texture::Image(img) => {
            if img.height == 0 || img.width == 0 {
                Vec3 { x: 0, y: FX_ONE, z: FX_ONE }
            } else {
                let uu = clamp01_s(u as int);
                let vv = FX_ONE - clamp01_s(v as int);
                let i = pixel_index_s(uu, img.width as int);
                let j = pixel_index_s(vv, img.height as int);
                let base = 3 * (j * img.width + i);
                Vec3 {
                    x: sat64(gamma_to_linear_s(img.data@[base] as int)) as i64,
                    y: sat64(gamma_to_linear_s(img.data@[base + 1] as int)) as i64,
                    z: sat64(gamma_to_linear_s(img.data@[base + 2] as int)) as i64,
                }
            }
        },
        Texture::Noise(n) => {
            let val = perlin_noise_s(n.noise, v_scale_s(p, n.scale as int));
            Vec3 { x: sat64(val) as i64, y: sat64(val) as i64, z: sat64(val) as i64 }
        },
    }
}

impl SolidColor {
    pub fn new(c: &Vec3) -> (r: SolidColor)
        ensures
            r == (SolidColor { color_value: *c }),
    {
        SolidColor { color_value: *c }
    }

    pub fn new_rgb(r: i64, g: i64, b: i64) -> (t: SolidColor)
        ensures
            t == (SolidColor { color_value: Vec3 { x: r, y: g, z: b } }),
    {
        SolidColor { color_value: Vec3 { x: r, y: g, z: b } }
    }
}

impl CheckerTexture {
    /// scale is the cell width; the reciprocal is cached.
    pub fn new(scale: i64, odd: Box<Texture>, even: Box<Texture>) -> (t: CheckerTexture)
        ensures
            t.inv_width as int == fx_div_s(FX_ONE as int, scale as int),
            t.odd == odd,
            t.even == even,
    {
        CheckerTexture { inv_width: fx_div(FX_ONE, scale), odd, even }
    }

    pub fn new_rgb(scale: i64, c1: &Vec3, c2: &Vec3) -> (t: CheckerTexture)
        ensures
            t.inv_width as int == fx_div_s(FX_ONE as int, scale as int),
            *t.odd == Texture::Solid(SolidColor { color_value: *c1 }),
            *t.even == Texture::Solid(SolidColor { color_value: *c2 }),
    {
        CheckerTexture {
            inv_width: fx_div(FX_ONE, scale),
            odd: Box::new(Texture::Solid(SolidColor { color_value: *c1 })),
            even: Box::new(Texture::Solid(SolidColor { color_value: *c2 })),
        }
    }
}

impl ImageTexture {
    pub fn new(width: usize, height: usize, data: Vec<u8>) -> (t: ImageTexture)
        requires
            data@.len() == width * height * 3,
            width < 0x10000000,
            height < 0x10000000,
        ensures
            t.width == width,
            t.height == height,
            t.data == data,
    {
        ImageTexture { width, height, data }
    }
}

impl NoiseTexture {
    pub fn new(scale: i64, s: &mut Sampler) -> (t: NoiseTexture)
        ensures
            t.scale == scale,
            perlin_wf(t.noise),
    {
        NoiseTexture { noise: Perlin::new(s), scale }
    }
}

/// Map a texture coordinate in [0, 1] to a pixel index.
fn pixel_index(u: i64, n: usize) -> (r: usize)
    requires
        0 <= u <= FX_ONE,
        0 < n < 0x10000000,
    ensures
        r as int == pixel_index_s(u as int, n as int),
        r < n,
{
    proof {
        assert(0 <= (u as int) * (n as int) <= 65536 * (n as int) < 0x100000000000)
            by (nonlinear_arith)
            requires
                0 <= u <= 65536 && 0 < n < 0x10000000,
        ;
    }
    let p: u64 = (u as u64) * (n as u64);
    let i: u64 = p / 65536;
    proof {
        vstd::arithmetic::div_mod::lemma_div_is_ordered((u as int) * (n as int), 65536 * (n as int), 65536);
        vstd::arithmetic::div_mod::lemma_div_by_multiple(n as int, 65536);
    }
    if i >= n as u64 {
        n - 1
    } else {
        i as usize
    }
}

fn gamma_to_linear(b: u8) -> (r: i64)
    ensures
        r as int == gamma_to_linear_s(b as int),
{
    let s = fx_div(crate::fx::fx_from_int(b as i64), 16711680);
    if s > 0 {
        fx_mul(s, s)
    } else {
        0
    }
}

impl Texture {
    /// The color of this texture at (u, v) and point p.
    pub fn value(&self, u: i64, v: i64, p: &Point3) -> (r: Vec3)
        requires
            texture_wf(*self),
        ensures
            r == texture_value_s(*self, u, v, *p),
        decreases *self,
    {
        match self {
            Texture::Solid(c) => c.color_value,
            Texture::Checker(c) => {
                let xi = crate::fx::fx_trunc(fx_mul(c.inv_width, p.x));
                let yi = crate::fx::fx_trunc(fx_mul(c.inv_width, p.y));
                let zi = crate::fx::fx_trunc(fx_mul(c.inv_width, p.z));
                let sum: i128 = xi as i128 + yi as i128 + zi as i128;
                let m = match sum.checked_rem_euclid(2) {
                    Some(m) => m,
                    None => 0,
                };
                if m == 0 {
                    c.even.value(u, v, p)
                } else {
                    c.odd.value(u, v, p)
                }
            },
            Texture::Image(img) => {
                if img.height == 0 || img.width == 0 {
                    return Vec3 { x: 0, y: FX_ONE, z: FX_ONE };
                }
                let range = crate::interval::Interval::new(0, FX_ONE);
                let uu = range.clamp(u);
                let vv = fx_sub(FX_ONE, range.clamp(v));
                proof {
                    assert(sat64(FX_ONE - clamp01_s(v as int)) == FX_ONE - clamp01_s(v as int));
                }
                let i = pixel_index(uu, img.width);
                let j = pixel_index(vv, img.height);
                proof {
                    assert(0 <= (j as int) * (img.width as int) && (j as int) * (img.width as int)
                        + (i as int) < (img.height as int) * (img.width as int))
                        by (nonlinear_arith)
                        requires
                            (i as int) < (img.width as int) && (j as int) < (img.height as int) && 0
                                <= (i as int) && 0 <= (j as int),
                    ;
                    assert((img.width as int) * (img.height as int) * 3 == img.data@.len());
                    assert((img.height as int) * (img.width as int) * 3 == img.data@.len())
                        by (nonlinear_arith)
                        requires
                            (img.width as int) * (img.height as int) * 3 == img.data@.len(),
                    ;
                }
                let len = img.data.len();
                proof {
                    assert(3 * ((j as int) * (img.width as int) + (i as int)) + 2 < 3 * ((
                    img.height as int) * (img.width as int))) by (nonlinear_arith)
                        requires
                            (j as int) * (img.width as int) + (i as int) < (img.height as int) * (
                            img.width as int),
                    ;
                }
                let base = 3 * (j * img.width + i);
                Vec3 {
                    x: gamma_to_linear(img.data[base]),
                    y: gamma_to_linear(img.data[base + 1]),
                    z: gamma_to_linear(img.data[base + 2]),
                }
            },
            Texture::Noise(n) => {
                let val = n.noise.noise(&p.scale(n.scale));
                Vec3 { x: val, y: val, z: val }
            },
        }
    }
}

} // verus!
