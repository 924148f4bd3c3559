//! The camera and the radiance integrator.
//!
//! Construction derives the viewport geometry — basis, per-pixel delta
//! vectors, the world position of the first pixel, the defocus disk —
//! from the two configuration records, each derived value pinned by the
//! mirror specification. Rendering walks the pixels sequentially; each
//! pixel averages one stratified jittered sample per sub-cell of a
//! sqrt_spp x sqrt_spp grid. The integrator is the bounded recursion:
//! exhausted depth is black, a miss is the background, a hit combines
//! emitted and scattered radiance.

use crate::color::{write_color_s, Color};
use crate::fx::{
    fx_add, fx_div, fx_div_s, fx_from_int, fx_half, fx_mul, fx_mul_s, fx_sub, isqrt, isqrt_u32,
    sat64, tdiv, FX_ONE,
};
use crate::hittable_list::{
    list_hit_s, list_mats_ok, list_wf, HittableList,
};
use crate::interval::Interval;
use crate::material::{emitted_s, material_wf, scatter_ok, scatter_pdf_s, Material};
use crate::ray::Ray;
use crate::rng::Sampler;
use crate::trig::{fx_tan_s, FX_PI};
use crate::vec3::{
    cross, cross_s, dot_s, random_in_unit_disk, unit_s, v_add_s, v_div_scalar_s, v_mul_s, v_neg_s,
    v_scale_s, v_sub_s, Point3, Vec3,
};
use vstd::prelude::*;

verus! {

/// Parameter below which a surface hit is ignored, so a scattered ray
/// does not immediately re-hit its own surface.
pub const T_MIN: i64 = 66;

pub struct ImageConfig {
    pub aspect_ratio: i64,
    pub image_width: u32,
    pub quality: u8,
    pub samples_per_pixel: u32,
    pub max_depth: i32,
    pub background: Color,
}

pub struct CameraConfig {
    /// Vertical field of view in degrees, as a fixed-point scalar.
    pub vfov: i64,
    pub look_from: Point3,
    pub look_at: Point3,
    pub vup: Vec3,
    pub defocus_angle: i64,
    pub focus_distance: i64,
}

pub struct Camera {
    pub aspect_ratio: i64,
    pub image_width: u32,
    pub image_height: u32,
    pub quality: u8,
    pub camera_center: Point3,
    pub vfov: i64,
    pub look_from: Point3,
    pub look_at: Point3,
    pub vup: Vec3,
    pub theta: i64,
    pub h: i64,
    pub viewport_height: i64,
    pub viewport_width: i64,
    pub viewport_u: Vec3,
    pub viewport_v: Vec3,
    pub pixel_delta_u: Vec3,
    pub pixel_delta_v: Vec3,
    pub viewport_upper_left: Point3,
    pub pixel100_loc: Point3,
    pub samples_per_pixel: u32,
    pub max_depth: i32,
    pub sqrt_spp: u32,
    pub background: Color,
    pub defocus_angle: i64,
    pub focus_distance: i64,
    pub defocus_disk_u: Vec3,
    pub defocus_disk_v: Vec3,
}

/// Degrees to radians: x * pi / 180.
pub open spec fn deg2rad_s(x: int) -> int {
    fx_div_s(fx_mul_s(x, FX_PI as int), 11796480)
}

/// The saturating-cast image height: width over aspect ratio, at least
/// one row.
pub open spec fn image_height_s(width: u32, aspect: i64) -> int {
    let t = fx_div_s(sat64(width * 65536), aspect as int) / 65536;
    if t <= 0 {
        1
    } else if t > u32::MAX as int {
        u32::MAX as int
    } else {
        t
    }
}

/// Every derived camera field, from the two configurations.
pub open spec fn camera_new_s(ic: ImageConfig, cc: CameraConfig) -> Camera {
    let image_height = image_height_s(ic.image_width, ic.aspect_ratio);
    let theta = deg2rad_s(cc.vfov as int);
    let h = fx_tan_s(tdiv(theta, 2));
    let sqrt_spp = isqrt(ic.samples_per_pixel as int);
    let viewport_height = fx_mul_s(fx_mul_s(131072, h), cc.focus_distance as int);
    let viewport_width = fx_mul_s(
        viewport_height,
        fx_div_s(sat64(ic.image_width * 65536), sat64(image_height * 65536)),
    );
    let w = unit_s(v_sub_s(cc.look_from, cc.look_at));
    let u = unit_s(cross_s(cc.vup, w));
    let v = cross_s(w, u);
    let viewport_u = v_scale_s(u, viewport_width);
    let viewport_v = v_scale_s(v, sat64(-viewport_height));
    let pixel_delta_u = v_div_scalar_s(viewport_u, sat64(ic.image_width * 65536));
    let pixel_delta_v = v_div_scalar_s(viewport_v, sat64(image_height * 65536));
    let viewport_upper_left = v_sub_s(
        v_sub_s(
            v_sub_s(cc.look_from, v_scale_s(w, cc.focus_distance as int)),
            v_div_scalar_s(viewport_u, 131072),
        ),
        v_div_scalar_s(viewport_v, 131072),
    );
    let pixel100_loc = v_add_s(
        viewport_upper_left,
        v_scale_s(v_add_s(pixel_delta_u, pixel_delta_v), 32768),
    );
    let defocus_radius = fx_mul_s(
        cc.focus_distance as int,
        fx_tan_s(deg2rad_s(tdiv(cc.defocus_angle as int, 2))),
    );
    Camera {
        aspect_ratio: ic.aspect_ratio,
        image_width: ic.image_width,
        image_height: image_height as u32,
        quality: ic.quality,
        camera_center: cc.look_from,
        vfov: cc.vfov,
        look_from: cc.look_from,
        look_at: cc.look_at,
        vup: cc.vup,
        theta: sat64(theta) as i64,
        h: sat64(h) as i64,
        viewport_height: sat64(viewport_height) as i64,
        viewport_width: sat64(viewport_width) as i64,
        viewport_u,
        viewport_v,
        pixel_delta_u,
        pixel_delta_v,
        viewport_upper_left,
        pixel100_loc,
        samples_per_pixel: ic.samples_per_pixel,
        max_depth: ic.max_depth,
        sqrt_spp: sqrt_spp as u32,
        background: ic.background,
        defocus_angle: cc.defocus_angle,
        focus_distance: cc.focus_distance,
        defocus_disk_u: v_scale_s(u, defocus_radius),
        defocus_disk_v: v_scale_s(v, defocus_radius),
    }
}

/// A camera the renderer can drive: at least one sample cell per axis.
pub open spec fn camera_wf(c: Camera) -> bool {
    1 <= c.sqrt_spp <= 0x10000
}

/// One stratified jitter coordinate: (cell + rnd)/sqrt_spp - 1/2.
pub open spec fn jitter_s(cell: int, rnd: int, sqrt_spp: int) -> int {
    sat64(fx_div_s(sat64(sat64(cell * 65536) + rnd), sat64(sqrt_spp * 65536)) - 32768)
}

fn deg2rad(x: i64) -> (r: i64)
    ensures
        r as int == deg2rad_s(x as int),
{
    fx_div(fx_mul(x, FX_PI), 11796480)
}

impl Camera {
    #[verifier::rlimit(100)]
    pub fn new(image_setting: ImageConfig, camera_setting: CameraConfig) -> (c: Camera)
        requires
            1 <= image_setting.samples_per_pixel,
        ensures
            c == camera_new_s(image_setting, camera_setting),
            camera_wf(c),
    {
        let aspect_ratio = image_setting.aspect_ratio;
        let image_width = image_setting.image_width;

        let ih64 = crate::fx::fx_floor(fx_div(fx_from_int(image_width as i64), aspect_ratio));
        let image_height: u32 = if ih64 <= 0 {
            1
        } else if ih64 > u32::MAX as i64 {
            u32::MAX
        } else {
            ih64 as u32
        };

        let camera_center = camera_setting.look_from;
        let theta = deg2rad(camera_setting.vfov);
        let h = crate::trig::fx_tan(fx_half(theta));

        let sqrt_spp: u32 = isqrt_u32(image_setting.samples_per_pixel);
        proof {
            crate::fx::lemma_isqrt_exists(image_setting.samples_per_pixel as int);
            assert(isqrt(image_setting.samples_per_pixel as int) * isqrt(
                image_setting.samples_per_pixel as int,
            ) <= u32::MAX as int);
            assert(1 * 1 <= image_setting.samples_per_pixel as int);
            assert(sqrt_spp as int <= 0x10000) by (nonlinear_arith)
                requires
                    0 <= sqrt_spp as int,
                    (sqrt_spp as int) * (sqrt_spp as int) <= 0xFFFFFFFF,
            ;
            if isqrt(image_setting.samples_per_pixel as int) < 1 {
                assert((isqrt(image_setting.samples_per_pixel as int) + 1) * (isqrt(
                    image_setting.samples_per_pixel as int,
                ) + 1) <= 1) by (nonlinear_arith)
                    requires
                        0 <= isqrt(image_setting.samples_per_pixel as int) < 1,
                ;
            }
        }
        let viewport_height = fx_mul(fx_mul(131072, h), camera_setting.focus_distance);
        let viewport_width = fx_mul(
            viewport_height,
            fx_div(fx_from_int(image_width as i64), fx_from_int(image_height as i64)),
        );
        let w = camera_setting.look_from.sub(camera_setting.look_at).unit();
        let u = cross(&camera_setting.vup, &w).unit();
        let v = cross(&w, &u);
        let viewport_u: Vec3 = u.scale(viewport_width);
        let viewport_v: Vec3 = v.scale(fx_sub(0, viewport_height));
        let pixel_delta_u: Vec3 = viewport_u.div(fx_from_int(image_width as i64));
        let pixel_delta_v: Vec3 = viewport_v.div(fx_from_int(image_height as i64));
        let viewport_upper_left: Point3 = camera_center.sub(
            w.scale(camera_setting.focus_distance),
        ).sub(viewport_u.div(131072)).sub(viewport_v.div(131072));
        let pixel100_loc: Point3 = viewport_upper_left.add(
            pixel_delta_u.add(pixel_delta_v).scale(32768),
        );
        let defocus_radius = fx_mul(
            camera_setting.focus_distance,
            crate::trig::fx_tan(deg2rad(fx_half(camera_setting.defocus_angle))),
        );
        let defocus_disk_u = u.scale(defocus_radius);
        let defocus_disk_v = v.scale(defocus_radius);
        Camera {
            aspect_ratio,
            image_width,
            image_height,
            quality: image_setting.quality,
            viewport_height,
            viewport_width,
            camera_center,
            look_from: camera_setting.look_from,
            look_at: camera_setting.look_at,
            vup: camera_setting.vup,
            vfov: camera_setting.vfov,
            theta,
            h,
            viewport_u,
            viewport_v,
            pixel_delta_u,
            pixel_delta_v,
            viewport_upper_left,
            pixel100_loc,
            max_depth: image_setting.max_depth,
            sqrt_spp,
            background: image_setting.background,
            samples_per_pixel: image_setting.samples_per_pixel,
            defocus_angle: camera_setting.defocus_angle,
            focus_distance: camera_setting.focus_distance,
            defocus_disk_u,
            defocus_disk_v,
        }
    }

    /// One jitter offset within the (s_i, s_j) sub-cell of the pixel.
    fn sample_square_stratified(&self, s_i: u32, s_j: u32, rng: &mut Sampler) -> (o: Vec3)
        requires
            camera_wf(*self),
        ensures
            exists|rx: int, ry: int|
                0 <= rx < 65536 && 0 <= ry < 65536 && o.x as int == #[trigger] jitter_s(
                    s_i as int,
                    rx,
                    self.sqrt_spp as int,
                ) && o.y as int == #[trigger] jitter_s(s_j as int, ry, self.sqrt_spp as int)
                    && o.z == 0,
    {
        let rx = rng.unit();
        let ry = rng.unit();
        let d = fx_from_int(self.sqrt_spp as i64);
        let px = fx_sub(fx_div(fx_add(fx_from_int(s_i as i64), rx), d), 32768);
        let py = fx_sub(fx_div(fx_add(fx_from_int(s_j as i64), ry), d), 32768);
        let o = Vec3 { x: px, y: py, z: 0 };
        proof {
            assert(0 <= rx < 65536 && 0 <= ry < 65536 && o.x as int == jitter_s(
                s_i as int,
                rx as int,
                self.sqrt_spp as int,
            ) && o.y as int == jitter_s(s_j as int, ry as int, self.sqrt_spp as int) && o.z == 0);
        }
        o
    }

    fn defocus_disk_sample(&self, rng: &mut Sampler) -> (p: Point3)
        ensures
            exists|d: Vec3|
                #[trigger] dot_s(d, d) < FX_ONE && d.z == 0 && p == v_add_s(
                    v_add_s(self.camera_center, v_scale_s(self.defocus_disk_u, d.x as int)),
                    v_scale_s(self.defocus_disk_v, d.y as int),
                ),
    {
        let d = random_in_unit_disk(rng);
        let p = self.camera_center.add(self.defocus_disk_u.scale(d.x)).add(
            self.defocus_disk_v.scale(d.y),
        );
        proof {
            assert(dot_s(d, d) < FX_ONE && d.z == 0 && p == v_add_s(
                v_add_s(self.camera_center, v_scale_s(self.defocus_disk_u, d.x as int)),
                v_scale_s(self.defocus_disk_v, d.y as int),
            ));
        }
        p
    }

    /// The sample ray through sub-cell (s_i, s_j) of pixel (i, j): its
    /// origin is the camera center (or a defocus-disk point), its
    /// direction aims at the jittered pixel position, its time is a
    /// uniform shutter sample.
    pub fn get_ray(&self, i: u32, j: u32, s_i: u32, s_j: u32, rng: &mut Sampler) -> (r: Ray)
        requires
            camera_wf(*self),
        ensures
            0 <= r.tm < FX_ONE,
            self.defocus_angle <= 0 ==> r.orig == self.camera_center,
            self.defocus_angle > 0 ==> exists|d: Vec3|
                #[trigger] dot_s(d, d) < FX_ONE && d.z == 0 && r.orig == v_add_s(
                    v_add_s(self.camera_center, v_scale_s(self.defocus_disk_u, d.x as int)),
                    v_scale_s(self.defocus_disk_v, d.y as int),
                ),
            exists|rx: int, ry: int|
                0 <= rx < 65536 && 0 <= ry < 65536 && r.dir == v_sub_s(
                    v_add_s(
                        v_add_s(
                            self.pixel100_loc,
                            v_scale_s(
                                self.pixel_delta_u,
                                sat64(sat64(i * 65536) + #[trigger] jitter_s(
                                    s_i as int,
                                    rx,
                                    self.sqrt_spp as int,
                                )),
                            ),
                        ),
                        v_scale_s(
                            self.pixel_delta_v,
                            sat64(sat64(j * 65536) + #[trigger] jitter_s(
                                s_j as int,
                                ry,
                                self.sqrt_spp as int,
                            )),
                        ),
                    ),
                    r.orig,
                ),
    {
        let offset = self.sample_square_stratified(s_i, s_j, rng);
        let pu: i64 = fx_add(fx_from_int(i as i64), offset.x);
        let pv: i64 = fx_add(fx_from_int(j as i64), offset.y);
        let pixel_center: Point3 = self.pixel100_loc.add(self.pixel_delta_u.scale(pu)).add(
            self.pixel_delta_v.scale(pv),
        );
        let ray_origin = if self.defocus_angle <= 0 {
            self.camera_center
        } else {
            self.defocus_disk_sample(rng)
        };
        let ray_direction = pixel_center.sub(ray_origin);
        let ray_time = rng.unit();
        proof {
            let (rx, ry) = choose|rx: int, ry: int|
                0 <= rx < 65536 && 0 <= ry < 65536 && offset.x as int == #[trigger] jitter_s(
                    s_i as int,
                    rx,
                    self.sqrt_spp as int,
                ) && offset.y as int == #[trigger] jitter_s(s_j as int, ry, self.sqrt_spp as int)
                    && offset.z == 0;
            assert(0 <= rx < 65536 && 0 <= ry < 65536 && ray_direction == v_sub_s(
                v_add_s(
                    v_add_s(
                        self.pixel100_loc,
                        v_scale_s(
                            self.pixel_delta_u,
                            sat64(sat64(i * 65536) + jitter_s(s_i as int, rx, self.sqrt_spp as int)),
                        ),
                    ),
                    v_scale_s(
                        self.pixel_delta_v,
                        sat64(sat64(j * 65536) + jitter_s(s_j as int, ry, self.sqrt_spp as int)),
                    ),
                ),
                ray_origin,
            ));
        }
        Ray::new(ray_origin, ray_direction, ray_time)
    }
}

/// All materials of an arena are well formed.
pub open spec fn mats_wf(mats: Seq<Material>) -> bool {
    forall|i: int| 0 <= i < mats.len() ==> material_wf(#[trigger] mats[i])
}

/// A ray this camera can produce for pixel (i, j): shutter time in
/// [0, 1), origin at the center or on the defocus disk, direction
/// through a stratified jitter of some sub-cell.
pub open spec fn camera_ray_ok(c: Camera, i: u32, j: u32, r: Ray) -> bool {
    &&& 0 <= r.tm < FX_ONE
    &&& (c.defocus_angle <= 0 ==> r.orig == c.camera_center)
    &&& (c.defocus_angle > 0 ==> exists|d: Vec3|
        #[trigger] dot_s(d, d) < FX_ONE && d.z == 0 && r.orig == v_add_s(
            v_add_s(c.camera_center, v_scale_s(c.defocus_disk_u, d.x as int)),
            v_scale_s(c.defocus_disk_v, d.y as int),
        ))
    &&& exists|si: int, sj: int, rx: int, ry: int|
        0 <= si < c.sqrt_spp && 0 <= sj < c.sqrt_spp && 0 <= rx < 65536 && 0 <= ry < 65536
            && r.dir == v_sub_s(
            v_add_s(
                v_add_s(
                    c.pixel100_loc,
                    v_scale_s(
                        c.pixel_delta_u,
                        sat64(sat64(i * 65536) + #[trigger] jitter_s(si, rx, c.sqrt_spp as int)),
                    ),
                ),
                v_scale_s(
                    c.pixel_delta_v,
                    sat64(sat64(j * 65536) + #[trigger] jitter_s(sj, ry, c.sqrt_spp as int)),
                ),
            ),
            r.orig,
        )
}

/// A radiance value the integrator can produce for a ray: exhausted
/// depth is black; a miss is the background; a hit is the emitted
/// radiance when the material absorbs, else the attenuated,
/// density-weighted combination of a possible radiance of a scattered
/// ray the material allows.
/// A radiance value the integrator can produce for a ray: exhausted
/// depth is black; a miss is the background; a hit is the emitted
/// radiance when the material absorbs, else the attenuated,
/// density-weighted combination of a possible radiance of a scattered
/// ray the material allows.
pub open spec fn radiance_ok(
    objs: Seq<crate::hittable_list::Object>,
    mats: Seq<Material>,
    bg: Color,
    r: Ray,
    depth: int,
    c: Color,
) -> bool
    decreases depth + 1,
{
    if depth < 0 {
        c == (Vec3 { x: 0, y: 0, z: 0 })
    } else {
        match list_hit_s(objs, r, T_MIN as int, i64::MAX as int) {
            None => c == bg,
            Some(h) => (h.mat as int) < mats.len() && ((scatter_ok(
                mats[h.mat as int],
                r,
                h,
                None::<(Ray, Vec3, i64)>,
            ) && c == emitted_s(mats[h.mat as int], h.u, h.v, h.p)) || (exists|
                sc: Ray,
                att: Vec3,
                pdf: i64,
                inc: Color,
            |
                {
                    &&& #[trigger] scatter_ok(mats[h.mat as int], r, h, Some((sc, att, pdf)))
                    &&& radiance_ok(objs, mats, bg, sc, depth - 1, inc)
                    &&& c == #[trigger] v_div_scalar_s(
                        v_mul_s(v_scale_s(att, scatter_pdf_s(mats[h.mat as int], h, sc)), inc),
                        scatter_pdf_s(mats[h.mat as int], h, sc),
                    )
                })),
        }
    }
}

/// The saturating componentwise sum of the first n sampled colors, as
/// the sampling loop accumulates it.
pub open spec fn color_sum_s(samples: Seq<Color>, n: int) -> Color
    decreases n,
{
    if n <= 0 {
        Vec3 { x: 0, y: 0, z: 0 }
    } else {
        v_add_s(color_sum_s(samples, n - 1), samples[n - 1])
    }
}

/// Two sequences agreeing on a prefix sum alike over it.
proof fn lemma_color_sum_agree(a: Seq<Color>, b: Seq<Color>, n: int)
    requires
        n <= a.len(),
        n <= b.len(),
        forall|k: int| 0 <= k < n ==> a[k] == #[trigger] b[k],
    ensures
        color_sum_s(a, n) == color_sum_s(b, n),
    decreases n,
{
    if n > 0 {
        lemma_color_sum_agree(a, b, n - 1);
    }
}

/// Appending one sample extends the sum by that sample.
proof fn lemma_color_sum_push(s: Seq<Color>, x: Color)
    ensures
        color_sum_s(s.push(x), s.len() as int + 1) == v_add_s(color_sum_s(s, s.len() as int), x),
{
    assert(s.push(x)[s.len() as int] == x);
    lemma_color_sum_agree(s.push(x), s, s.len() as int);
}

/// What a rendered pixel is: the tone-mapped average of one integrator
/// outcome per stratified sub-cell, each along a ray the camera can
/// produce for that pixel.
pub open spec fn pixel_ok(
    c: Camera,
    objs: Seq<crate::hittable_list::Object>,
    mats: Seq<Material>,
    i: u32,
    j: u32,
    pix: Color,
) -> bool {
    exists|samples: Seq<Color>|
        #![trigger color_sum_s(samples, samples.len() as int)]
        {
            &&& samples.len() == (c.sqrt_spp as int) * (c.sqrt_spp as int)
            &&& (forall|k: int|
                0 <= k < samples.len() ==> exists|rr: Ray|
                    camera_ray_ok(c, i, j, rr) && radiance_ok(
                        objs,
                        mats,
                        c.background,
                        rr,
                        c.max_depth as int,
                        #[trigger] samples[k],
                    ))
            &&& pix == v_div_scalar_s(
                color_sum_s(samples, samples.len() as int),
                sat64((c.sqrt_spp as int) * (c.sqrt_spp as int) * 65536),
            )
        }
}

/// Pixel m of a byte buffer holds the tone-mapped bytes of a possible
/// pixel value for its row-major coordinates.
pub open spec fn pixel_bytes_ok(
    c: Camera,
    objs: Seq<crate::hittable_list::Object>,
    mats: Seq<Material>,
    out: Seq<u8>,
    m: int,
    p: Color,
) -> bool {
    &&& pixel_ok(
        c,
        objs,
        mats,
        (m % (c.image_width as int)) as u32,
        (m / (c.image_width as int)) as u32,
        p,
    )
    &&& (out[3 * m]) as int == write_color_s(p).0
    &&& out[3 * m + 1] as int == write_color_s(p).1
    &&& out[3 * m + 2] as int == write_color_s(p).2
}

/// Pixel m of the buffer holds the bytes of some possible pixel value.
pub open spec fn some_pixel_ok(
    c: Camera,
    objs: Seq<crate::hittable_list::Object>,
    mats: Seq<Material>,
    out: Seq<u8>,
    m: int,
) -> bool {
    exists|p: Color| #[trigger] pixel_bytes_ok(c, objs, mats, out, m, p)
}

/// The radiance arriving along a ray. Exhausted depth yields black; a
/// miss yields the background; a hit yields the emitted radiance when
/// the material absorbs, else the scattered radiance weighted by
/// attenuation and the density ratio.
#[verifier::rlimit(100)]
pub fn ray_color(
    r: &Ray,
    depth: i32,
    world: &HittableList,
    mats: &Vec<Material>,
    background: &Color,
    rng: &mut Sampler,
) -> (c: Color)
    requires
        list_wf(*world),
        mats_wf(mats@),
        list_mats_ok(world.objects@, mats@.len() as int),
    ensures
        depth < 0 ==> c == (Vec3 { x: 0, y: 0, z: 0 }),
        depth >= 0 && list_hit_s(world.objects@, *r, T_MIN as int, i64::MAX as int) is None ==> c
            == *background,
        // A surface that only emits contributes exactly its emitted
        // radiance; emission and scattering are exclusive.
        depth >= 0 ==> (match list_hit_s(world.objects@, *r, T_MIN as int, i64::MAX as int) {
            Some(h) => (mats@[h.mat as int] is DiffuseLight) ==> c == emitted_s(
                mats@[h.mat as int],
                h.u,
                h.v,
                h.p,
            ),
            None => true,
        }),
        radiance_ok(world.objects@, mats@, *background, *r, depth as int, c),
    decreases depth + 1,
{
    if depth < 0 {
        return Vec3 { x: 0, y: 0, z: 0 };
    }

    match world.hit(r, Interval::new(T_MIN, i64::MAX)) {
        Some(rec) => {
            proof {
                crate::hittable_list::lemma_list_hit_mat(
                    world.objects@,
                    *r,
                    T_MIN as int,
                    i64::MAX as int,
                    mats@.len() as int,
                    world.objects@.len() as int,
                );
            }
            let m = &mats[rec.mat];
            match m.scatter(r, &rec, rng) {
                Some((scattered, attenuation, _pdf)) => {
                    let scattering_pdf = m.scatter_pdf(r, &rec, &scattered);
                    let pdf = scattering_pdf;
                    let incoming = ray_color(&scattered, depth - 1, world, mats, background, rng);
                    let out = attenuation.scale(scattering_pdf).mul_v(incoming).div(pdf);
                    proof {
                        assert(!(mats@[rec.mat as int] is DiffuseLight)) by {
                            reveal(scatter_ok);
                        }
                        assert(scatter_ok(
                            mats@[rec.mat as int],
                            *r,
                            rec,
                            Some((scattered, attenuation, _pdf)),
                        ) && radiance_ok(
                            world.objects@,
                            mats@,
                            *background,
                            scattered,
                            depth - 1,
                            incoming,
                        ) && out == v_div_scalar_s(
                            v_mul_s(
                                v_scale_s(
                                    attenuation,
                                    scatter_pdf_s(mats@[rec.mat as int], rec, scattered),
                                ),
                                incoming,
                            ),
                            scatter_pdf_s(mats@[rec.mat as int], rec, scattered),
                        ));
                        assert(radiance_ok(world.objects@, mats@, *background, *r, depth as int, out));
                    }
                    out
                },
                None => {
                    let out = m.emitted(rec.u, rec.v, &rec.p);
                    proof {
                        assert(scatter_ok(mats@[rec.mat as int], *r, rec, None::<(Ray, Vec3, i64)>));
                        assert(out == emitted_s(mats@[rec.mat as int], rec.u, rec.v, rec.p));
                        assert(radiance_ok(world.objects@, mats@, *background, *r, depth as int, out));
                    }
                    out
                },
            }
        },
        None => {
            proof {
                assert(radiance_ok(
                    world.objects@,
                    mats@,
                    *background,
                    *r,
                    depth as int,
                    *background,
                ));
            }
            *background
        },
    }
}

/// Whether a background color can be summed over spp samples without
/// saturating.
pub open spec fn bg_sum_ok(bg: Color, spp: int) -> bool {
    &&& -(i64::MAX as int) <= bg.x * spp <= i64::MAX as int
    &&& -(i64::MAX as int) <= bg.y * spp <= i64::MAX as int
    &&& -(i64::MAX as int) <= bg.z * spp <= i64::MAX as int
}

/// One sample count more of the same color stays within bounds and
/// adds exactly.
proof fn lemma_bg_sum_step(bg: Color, k: int, spp: int)
    requires
        bg_sum_ok(bg, spp),
        0 <= k < spp,
    ensures
        sat64(k * bg.x + bg.x) == (k + 1) * bg.x,
        sat64(k * bg.y + bg.y) == (k + 1) * bg.y,
        sat64(k * bg.z + bg.z) == (k + 1) * bg.z,
{
    lemma_sum_step_one(bg.x as int, k, spp);
    lemma_sum_step_one(bg.y as int, k, spp);
    lemma_sum_step_one(bg.z as int, k, spp);
}

proof fn lemma_sum_step_one(c: int, k: int, spp: int)
    requires
        0 <= k < spp,
        -(i64::MAX as int) <= c * spp <= i64::MAX as int,
        i64::MIN <= c <= i64::MAX,
    ensures
        sat64(k * c + c) == (k + 1) * c,
{
    assert((k + 1) * c == k * c + c) by (nonlinear_arith);
    lemma_scaled_bound(c, k + 1, spp);
}

/// Scaling by a smaller nonnegative count keeps the magnitude bound.
proof fn lemma_scaled_bound(c: int, k: int, spp: int)
    requires
        0 <= k <= spp,
        -(i64::MAX as int) <= c * spp <= i64::MAX as int,
        i64::MIN <= c <= i64::MAX,
    ensures
        -(i64::MAX as int) <= c * k <= i64::MAX as int,
{
    assert(-(i64::MAX as int) <= c * k <= i64::MAX as int) by (nonlinear_arith)
        requires
            0 <= k <= spp,
            -(i64::MAX as int) <= c * spp <= i64::MAX as int,
            -0x8000000000000000 <= c <= 0x7FFFFFFFFFFFFFFF,
    ;
}

/// An exact sum of spp copies of the background divides back to the
/// background.
proof fn lemma_bg_average(bg: Color, spp: int)
    requires
        1 <= spp <= 0x100000000,
        bg_sum_ok(bg, spp),
    ensures
        fx_div_s(spp * bg.x, sat64(spp * 65536)) == bg.x as int,
        fx_div_s(spp * bg.y, sat64(spp * 65536)) == bg.y as int,
        fx_div_s(spp * bg.z, sat64(spp * 65536)) == bg.z as int,
{
    lemma_bg_average_one(bg.x as int, spp);
    lemma_bg_average_one(bg.y as int, spp);
    lemma_bg_average_one(bg.z as int, spp);
}

proof fn lemma_bg_average_one(c: int, spp: int)
    requires
        1 <= spp <= 0x100000000,
        i64::MIN <= c <= i64::MAX,
    ensures
        fx_div_s(spp * c, sat64(spp * 65536)) == c,
{
    assert(sat64(spp * 65536) == spp * 65536) by (nonlinear_arith)
        requires
            1 <= spp <= 0x100000000,
    ;
    assert((spp * c) * 65536 == c * (spp * 65536)) by (nonlinear_arith);
    crate::fx::lemma_tdiv_multiple(c, spp * 65536);
}

impl Camera {
    /// Render the scene into an RGB byte buffer, three bytes per pixel,
    /// rows from the top. On an empty scene every pixel is exactly the
    /// tone-mapped background.
    /// Average one jittered radiance sample per stratified sub-cell.
    /// On an empty scene whose background sums without saturating, the
    /// result is exactly the background.
    #[verifier::rlimit(100)]
    fn sample_pixel(
        &self,
        i: u32,
        j: u32,
        world: &HittableList,
        mats: &Vec<Material>,
        rng: &mut Sampler,
    ) -> (pix: Color)
        requires
            camera_wf(*self),
            list_wf(*world),
            mats_wf(mats@),
            list_mats_ok(world.objects@, mats@.len() as int),
        ensures
            world.objects@.len() == 0 && self.max_depth >= 0 && bg_sum_ok(
                self.background,
                (self.sqrt_spp as int) * (self.sqrt_spp as int),
            ) ==> pix == self.background,
            pixel_ok(*self, world.objects@, mats@, i, j, pix),
    {
        let ghost spp_g: int = (self.sqrt_spp as int) * (self.sqrt_spp as int);
        let ghost empty_case: bool = world.objects@.len() == 0 && self.max_depth >= 0 && bg_sum_ok(self.background, spp_g);
        let mut pixel_color: Color = Vec3 { x: 0, y: 0, z: 0 };
        let ghost mut samples: int = 0;
        let ghost mut samps: Seq<Color> = Seq::empty();
        proof {
            assert(1 <= (self.sqrt_spp as int) * (self.sqrt_spp as int) <= 0x100000000)
                by (nonlinear_arith)
                requires
                    1 <= self.sqrt_spp as int <= 0x10000,
            ;
        }
        let mut s_j: u32 = 0;
        while s_j < self.sqrt_spp
            invariant
                s_j <= self.sqrt_spp,
                camera_wf(*self),
                list_wf(*world),
                mats_wf(mats@),
                list_mats_ok(world.objects@, mats@.len() as int),
                spp_g == (self.sqrt_spp as int) * (self.sqrt_spp as int),
                1 <= spp_g <= 0x100000000,
                empty_case == (world.objects@.len() == 0 && self.max_depth >= 0 && bg_sum_ok(
                    self.background,
                    spp_g,
                )),
                samples == (s_j as int) * (self.sqrt_spp as int),
                0 <= samples <= spp_g,
                samps.len() == samples,
                pixel_color == color_sum_s(samps, samps.len() as int),
                forall|k: int|
                    0 <= k < samps.len() ==> exists|rr: Ray|
                        camera_ray_ok(*self, i, j, rr) && radiance_ok(
                            world.objects@,
                            mats@,
                            self.background,
                            rr,
                            self.max_depth as int,
                            #[trigger] samps[k],
                        ),
                empty_case ==> pixel_color.x as int == samples * self.background.x
                    && pixel_color.y as int == samples * self.background.y && pixel_color.z as int
                    == samples * self.background.z,
            decreases self.sqrt_spp - s_j,
        {
            proof {
                assert((s_j as int) * (self.sqrt_spp as int) + self.sqrt_spp as int <= (
                self.sqrt_spp as int) * (self.sqrt_spp as int)) by (nonlinear_arith)
                    requires
                        0 <= s_j as int && (s_j as int) < (self.sqrt_spp as int),
                ;
            }
            let mut s_i: u32 = 0;
            while s_i < self.sqrt_spp
                invariant
                    s_j < self.sqrt_spp,
                    s_i <= self.sqrt_spp,
                    camera_wf(*self),
                    list_wf(*world),
                    mats_wf(mats@),
                    list_mats_ok(world.objects@, mats@.len() as int),
                    spp_g == (self.sqrt_spp as int) * (self.sqrt_spp as int),
                    1 <= spp_g <= 0x100000000,
                    empty_case == (world.objects@.len() == 0 && self.max_depth >= 0 && bg_sum_ok(
                        self.background,
                        spp_g,
                    )),
                    samples == (s_j as int) * (self.sqrt_spp as int) + s_i as int,
                    0 <= samples,
                    samples + (self.sqrt_spp as int - s_i as int) <= spp_g,
                    samps.len() == samples,
                pixel_color == color_sum_s(samps, samps.len() as int),
                forall|k: int|
                    0 <= k < samps.len() ==> exists|rr: Ray|
                        camera_ray_ok(*self, i, j, rr) && radiance_ok(
                            world.objects@,
                            mats@,
                            self.background,
                            rr,
                            self.max_depth as int,
                            #[trigger] samps[k],
                        ),
                empty_case ==> pixel_color.x as int == samples * self.background.x
                        && pixel_color.y as int == samples * self.background.y
                        && pixel_color.z as int == samples * self.background.z,
                decreases self.sqrt_spp - s_i,
            {
                let r = self.get_ray(i, j, s_i, s_j, rng);
                let sample = ray_color(&r, self.max_depth, world, mats, &self.background, rng);
                proof {
                    if empty_case {
                        assert(crate::hittable_list::list_hit_s(
                            world.objects@,
                            r,
                            T_MIN as int,
                            i64::MAX as int,
                        ) is None);
                        lemma_bg_sum_step(self.background, samples, spp_g);
                    }
                }
                proof {
                    let (rxw, ryw) = choose|rx: int, ry: int|
                        0 <= rx < 65536 && 0 <= ry < 65536 && r.dir == v_sub_s(
                            v_add_s(
                                v_add_s(
                                    self.pixel100_loc,
                                    v_scale_s(
                                        self.pixel_delta_u,
                                        sat64(sat64(i * 65536) + #[trigger] jitter_s(
                                            s_i as int,
                                            rx,
                                            self.sqrt_spp as int,
                                        )),
                                    ),
                                ),
                                v_scale_s(
                                    self.pixel_delta_v,
                                    sat64(sat64(j * 65536) + #[trigger] jitter_s(
                                        s_j as int,
                                        ry,
                                        self.sqrt_spp as int,
                                    )),
                                ),
                            ),
                            r.orig,
                        );
                    assert(camera_ray_ok(*self, i, j, r));
                    assert(exists|rr: Ray|
                        camera_ray_ok(*self, i, j, rr) && radiance_ok(
                            world.objects@,
                            mats@,
                            self.background,
                            rr,
                            self.max_depth as int,
                            sample,
                        ));
                    lemma_color_sum_push(samps, sample);
                }
                pixel_color = pixel_color.add(sample);
                proof {
                    samples = samples + 1;
                    samps = samps.push(sample);
                }
                s_i = s_i + 1;
            }
            proof {
                assert((s_j as int + 1) * (self.sqrt_spp as int) == (s_j as int) * (
                self.sqrt_spp as int) + self.sqrt_spp as int) by (nonlinear_arith);
            }
            s_j = s_j + 1;
        }
        let spp: i64 = (self.sqrt_spp as i64) * (self.sqrt_spp as i64);
        proof {
            assert(samples == spp_g);
        }
        let pixel = pixel_color.div(fx_from_int(spp));
        proof {
            if empty_case {
                lemma_bg_average(self.background, spp_g);
                assert(pixel == self.background);
            }
            assert(samps.len() == spp_g);
            assert(pixel == v_div_scalar_s(
                color_sum_s(samps, samps.len() as int),
                sat64((self.sqrt_spp as int) * (self.sqrt_spp as int) * 65536),
            ));
            assert(pixel_ok(*self, world.objects@, mats@, i, j, pixel));
        }
        pixel
    }

    #[verifier::rlimit(100)]
    pub fn render(
        &self,
        world: &HittableList,
        mats: &Vec<Material>,
        rng: &mut Sampler,
    ) -> (out: Vec<u8>)
        requires
            camera_wf(*self),
            list_wf(*world),
            mats_wf(mats@),
            list_mats_ok(world.objects@, mats@.len() as int),
        ensures
            out@.len() == 3 * ((self.image_height as int) * (self.image_width as int)),
            world.objects@.len() == 0 && self.max_depth >= 0 && bg_sum_ok(
                self.background,
                (self.sqrt_spp as int) * (self.sqrt_spp as int),
            ) ==> forall|m: int|
                0 <= m < (self.image_height as int) * (self.image_width as int)
                    ==> #[trigger] (out@[3 * m]) as int == write_color_s(self.background).0 && out@[
                    3 * m + 1] as int == write_color_s(self.background).1 && out@[3 * m
                    + 2] as int == write_color_s(self.background).2,
            // Every pixel is the tone-mapped average of one verified
            // integrator outcome per stratified sub-cell.
            forall|m: int|
                0 <= m < (self.image_height as int) * (self.image_width as int)
                    ==> #[trigger] some_pixel_ok(*self, world.objects@, mats@, out@, m),
    {
        let ghost spp_g: int = (self.sqrt_spp as int) * (self.sqrt_spp as int);
        let ghost empty_case: bool = world.objects@.len() == 0 && self.max_depth >= 0 && bg_sum_ok(self.background, spp_g);
        let ghost b0 = write_color_s(self.background).0;
        let ghost b1 = write_color_s(self.background).1;
        let ghost b2 = write_color_s(self.background).2;

        let mut out: Vec<u8> = Vec::new();
        let h = self.image_height;
        let w = self.image_width;
        let mut j: u32 = 0;
        while j < h
            invariant
                j <= h,
                camera_wf(*self),
                list_wf(*world),
                mats_wf(mats@),
                list_mats_ok(world.objects@, mats@.len() as int),
                spp_g == (self.sqrt_spp as int) * (self.sqrt_spp as int),
                empty_case == (world.objects@.len() == 0 && self.max_depth >= 0 && bg_sum_ok(
                    self.background,
                    spp_g,
                )),
                b0 == write_color_s(self.background).0,
                b1 == write_color_s(self.background).1,
                b2 == write_color_s(self.background).2,
                h == self.image_height,
                w == self.image_width,
                out@.len() == 3 * ((j as int) * (w as int)),
                empty_case ==> forall|m: int|
                    0 <= m < (j as int) * (w as int) ==> #[trigger] (out@[3 * m]) as int == b0
                        && out@[3 * m + 1] as int == b1 && out@[3 * m + 2] as int == b2,
                forall|m: int|
                    0 <= m < (j as int) * (w as int) ==> #[trigger] some_pixel_ok(
                        *self,
                        world.objects@,
                        mats@,
                        out@,
                        m,
                    ),
            decreases h - j,
        {
            let mut i: u32 = 0;
            while i < w
                invariant
                    j < h,
                    i <= w,
                    camera_wf(*self),
                    list_wf(*world),
                    mats_wf(mats@),
                    list_mats_ok(world.objects@, mats@.len() as int),
                    spp_g == (self.sqrt_spp as int) * (self.sqrt_spp as int),
                    empty_case == (world.objects@.len() == 0 && self.max_depth >= 0 && bg_sum_ok(
                        self.background,
                        spp_g,
                    )),
                    b0 == write_color_s(self.background).0,
                    b1 == write_color_s(self.background).1,
                    b2 == write_color_s(self.background).2,
                    h == self.image_height,
                    w == self.image_width,
                    out@.len() == 3 * ((j as int) * (w as int) + i as int),
                    empty_case ==> forall|m: int|
                        0 <= m < (j as int) * (w as int) + i as int ==> #[trigger] (out@[3
                            * m]) as int == b0 && out@[3 * m + 1] as int == b1 && out@[3 * m
                            + 2] as int == b2,
                    forall|m: int|
                        0 <= m < (j as int) * (w as int) + i as int ==> #[trigger] some_pixel_ok(
                            *self,
                            world.objects@,
                            mats@,
                            out@,
                            m,
                        ),
                decreases w - i,
            {
                let pixel = self.sample_pixel(i, j, world, mats, rng);
                let (pr, pg, pb) = pixel.write_color();
                let ghost out0 = out@;
                out.push(pr);
                out.push(pg);
                out.push(pb);
                proof {
                    assert(out@.len() == 3 * ((j as int) * (w as int) + i as int) + 3);
                    let m0: int = (j as int) * (w as int) + i as int;
                    vstd::arithmetic::div_mod::lemma_fundamental_div_mod_converse(
                        m0,
                        w as int,
                        j as int,
                        i as int,
                    );
                    assert((m0 % (self.image_width as int)) as u32 == i && (m0 / (
                    self.image_width as int)) as u32 == j);
                    assert(out@[3 * m0] == pr && out@[3 * m0 + 1] == pg && out@[3 * m0 + 2] == pb);
                    assert forall|m: int|
                        0 <= m < m0 + 1 implies #[trigger] some_pixel_ok(
                        *self,
                        world.objects@,
                        mats@,
                        out@,
                        m,
                    ) by {
                        if m == m0 {
                            assert(pixel_bytes_ok(*self, world.objects@, mats@, out@, m, pixel));
                        } else {
                            assert(some_pixel_ok(*self, world.objects@, mats@, out0, m));
                            let pw = choose|p: Color|
                                #[trigger] pixel_bytes_ok(*self, world.objects@, mats@, out0, m, p);
                            assert(out@[3 * m] == out0[3 * m] && out@[3 * m + 1] == out0[3 * m
                                + 1] && out@[3 * m + 2] == out0[3 * m + 2]);
                            assert(pixel_bytes_ok(*self, world.objects@, mats@, out@, m, pw));
                        }
                    }
                    if empty_case {
                        assert forall|m: int|
                            0 <= m < (j as int) * (w as int) + i as int + 1 implies #[trigger] (
                        out@[3 * m]) as int == b0 && out@[3 * m + 1] as int == b1 && out@[3 * m
                            + 2] as int == b2 by {
                            if m < (j as int) * (w as int) + i as int {
                                assert(out@[3 * m] as int == b0);
                            }
                        }
                    }
                }
                i = i + 1;
            }
            proof {
                assert((j as int + 1) * (w as int) == (j as int) * (w as int) + w as int)
                    by (nonlinear_arith);
                assert forall|m: int|
                    0 <= m < (j as int + 1) * (w as int) implies #[trigger] some_pixel_ok(
                    *self,
                    world.objects@,
                    mats@,
                    out@,
                    m,
                ) by {
                    assert(0 <= m < (j as int) * (w as int) + w as int);
                }
            }
            j = j + 1;
        }
        proof {
            assert forall|m: int|
                0 <= m < (self.image_height as int) * (self.image_width as int)
                    implies #[trigger] some_pixel_ok(*self, world.objects@, mats@, out@, m) by {
                assert(0 <= m < (j as int) * (w as int));
            }
        }
        out
    }
}

} // verus!
