//! Scattering models. Each material either absorbs a ray or produces a
//! scattered ray, an attenuation color and the density with which the
//! new direction was sampled. Sampled directions cannot be pinned down,
//! so the contracts state everything that holds of every outcome: the
//! scattered origin and time, the attenuation, the density, and the
//! shape of the direction (a basis image, a reflection, a refraction).

use crate::fx::{fx_div, fx_div_s, fx_min, fx_mul, fx_mul_s, fx_sqrt, fx_sqrt_s, fx_sub, sat64, FX_ONE};
use crate::hittable::HitRecord;
use crate::onb::{onb_local_s, onb_new_s, Onb};
use crate::ray::Ray;
use crate::rng::Sampler;
use crate::texture::{texture_value_s, texture_wf, SolidColor, Texture};
use crate::trig::{FX_FOUR_PI, FX_PI};
use crate::vec3::{
    dot_s, reflect, reflect_s, refract, refract_s, unit_s, v_add_s, v_neg_s, v_scale_s, Point3,
    Vec3,
};
use vstd::prelude::*;

verus! {

pub struct Lambertian {
    pub texture: Texture,
}

pub struct Metal {
    pub albedo: Vec3,
    pub fuzz: i64,
}

pub struct Dielectric {
    pub ir: i64,
}

pub struct DiffuseLight {
    pub tex: Texture,
}

pub struct Isotropic {
    pub albedo: Texture,
}

pub enum Material {
    Lambertian(Lambertian),
    Metal(Metal),
    Dielectric(Dielectric),
    DiffuseLight(DiffuseLight),
    Isotropic(Isotropic),
}

pub open spec fn material_wf(m: Material) -> bool {
    match m {
        Material::Lambertian(l) => texture_wf(l.texture),
        Material::Metal(_) => true,
        Material::Dielectric(_) => true,
        Material::DiffuseLight(d) => texture_wf(d.tex),
        Material::Isotropic(i) => texture_wf(i.albedo),
    }
}

/// The radiance a material emits; only the diffuse light emits.
#[verifier::opaque]
pub open spec fn emitted_s(m: Material, u: i64, v: i64, p: Point3) -> Vec3 {
    match m {
        Material::DiffuseLight(d) => texture_value_s(d.tex, u, v, p),
        _ => Vec3 { x: 0, y: 0, z: 0 },
    }
}

/// The material's own scattering density: the diffuse model's cosine
/// density cos(theta)/pi over the angle between the shading normal and
/// the scattered direction (clamped at zero below the surface), the
/// isotropic model's uniform 1/(4 pi), zero elsewhere.
#[verifier::opaque]
pub open spec fn scatter_pdf_s(m: Material, rec: HitRecord, scattered: Ray) -> int {
    match m {
        Material::Lambertian(_) => {
            let c = fx_div_s(dot_s(unit_s(rec.normal), unit_s(scattered.dir)), FX_PI as int);
            if c >= 0 {
                c
            } else {
                0
            }
        },
        Material::Isotropic(_) => fx_div_s(FX_ONE as int, FX_FOUR_PI as int),
        _ => 0,
    }
}

/// Schlick's reflectance approximation:
/// r0 + (1 - r0) (1 - cos)^5 with r0 = ((1 - n)/(1 + n))^2.
pub open spec fn reflectance_s(cosine: int, ref_idx: int) -> int {
    let r0w = fx_div_s(sat64(FX_ONE - ref_idx), sat64(FX_ONE + ref_idx));
    let r0 = fx_mul_s(r0w, r0w);
    let omc = sat64(FX_ONE - cosine);
    let omc2 = fx_mul_s(omc, omc);
    let omc4 = fx_mul_s(omc2, omc2);
    let omc5 = fx_mul_s(omc4, omc);
    sat64(r0 + fx_mul_s(sat64(FX_ONE - r0), omc5))
}

/// Everything that holds of a scatter result, whatever the random draws
/// were.
#[verifier::opaque]
pub open spec fn scatter_ok(
    m: Material,
    r_in: Ray,
    rec: HitRecord,
    res: Option<(Ray, Vec3, i64)>,
) -> bool {
    match m {
        Material::Lambertian(l) => match res {
            Some((sc, att, pdf)) => {
                &&& sc.orig == rec.p
                &&& sc.tm == r_in.tm
                &&& att == texture_value_s(l.texture, rec.u, rec.v, rec.p)
                &&& exists|d: Vec3|
                    d.z >= 0 && sc.dir == #[trigger] onb_local_s(onb_new_s(rec.normal), d)
                &&& pdf as int == fx_div_s(
                    dot_s(onb_new_s(rec.normal).axis_w, sc.dir),
                    FX_PI as int,
                )
            },
            None => false,
        },
        Material::Metal(mt) => match res {
            Some((sc, att, pdf)) => {
                &&& sc.orig == rec.p
                &&& sc.tm == r_in.tm
                &&& att == mt.albedo
                &&& pdf == FX_ONE
                &&& dot_s(sc.dir, rec.normal) > 0
                &&& exists|f: Vec3|
                    1024 <= #[trigger] dot_s(f, f) < FX_ONE && sc.dir == v_add_s(
                        reflect_s(unit_s(r_in.dir), rec.normal),
                        v_scale_s(f, mt.fuzz as int),
                    )
            },
            // Absorbed: the drawn perturbation left the fuzzed mirror
            // direction at or below the surface. Without fuzz that
            // means the pure reflection itself does not clear it.
            None => {
                &&& exists|f: Vec3|
                    1024 <= #[trigger] dot_s(f, f) < FX_ONE && dot_s(
                        v_add_s(
                            reflect_s(unit_s(r_in.dir), rec.normal),
                            v_scale_s(f, mt.fuzz as int),
                        ),
                        rec.normal,
                    ) <= 0
                &&& mt.fuzz == 0 ==> dot_s(reflect_s(unit_s(r_in.dir), rec.normal), rec.normal)
                    <= 0
            },
        },
        Material::Dielectric(d) => match res {
            Some((sc, att, pdf)) => {
                let ratio = if rec.front_face {
                    fx_div_s(FX_ONE as int, d.ir as int)
                } else {
                    d.ir as int
                };
                let ud = unit_s(r_in.dir);
                &&& sc.orig == rec.p
                &&& sc.tm == r_in.tm
                &&& att == (Vec3 { x: FX_ONE, y: FX_ONE, z: FX_ONE })
                &&& pdf == FX_ONE
                &&& (sc.dir == reflect_s(ud, rec.normal) || sc.dir == refract_s(
                    ud,
                    rec.normal,
                    ratio,
                ))
                // Total internal reflection forces the reflect branch.
                &&& ({
                    let cos_theta = if dot_s(v_neg_s(ud), rec.normal) <= FX_ONE as int {
                        dot_s(v_neg_s(ud), rec.normal)
                    } else {
                        FX_ONE as int
                    };
                    let sin_theta = fx_sqrt_s(sat64(FX_ONE - fx_mul_s(cos_theta, cos_theta)));
                    fx_mul_s(ratio, sin_theta) > FX_ONE as int ==> sc.dir == reflect_s(
                        ud,
                        rec.normal,
                    )
                })
            },
            None => false,
        },
        Material::DiffuseLight(_) => res is None,
        Material::Isotropic(i) => match res {
            Some((sc, att, pdf)) => {
                &&& sc.orig == rec.p
                &&& sc.tm == r_in.tm
                &&& att == texture_value_s(i.albedo, rec.u, rec.v, rec.p)
                &&& pdf as int == fx_div_s(FX_ONE as int, FX_FOUR_PI as int)
                &&& 1024 <= dot_s(sc.dir, sc.dir) < FX_ONE
            },
            None => false,
        },
    }
}

impl Lambertian {
    pub fn new(a: &Vec3) -> (m: Lambertian)
        ensures
            m.texture == Texture::Solid(SolidColor { color_value: *a }),
    {
        Lambertian { texture: Texture::Solid(SolidColor::new(a)) }
    }

    pub fn new_texture(tex: Texture) -> (m: Lambertian)
        ensures
            m.texture == tex,
    {
        Lambertian { texture: tex }
    }
}

impl Metal {
    /// Fuzz radii above one are clamped to one.
    pub fn new(a: &Vec3, f: i64) -> (m: Metal)
        ensures
            m.albedo == *a,
            m.fuzz == if f < FX_ONE {
                f
            } else {
                FX_ONE
            },
    {
        let fuzz = if f < FX_ONE {
            f
        } else {
            FX_ONE
        };
        Metal { albedo: *a, fuzz }
    }
}

impl Dielectric {
    pub fn new(index_of_refraction: i64) -> (m: Dielectric)
        ensures
            m.ir == index_of_refraction,
    {
        Dielectric { ir: index_of_refraction }
    }

    fn reflectance(cosine: i64, ref_idx: i64) -> (r: i64)
        ensures
            r as int == reflectance_s(cosine as int, ref_idx as int),
    {
        let r0w = fx_div(fx_sub(FX_ONE, ref_idx), crate::fx::fx_add(FX_ONE, ref_idx));
        let r0 = fx_mul(r0w, r0w);
        let omc = fx_sub(FX_ONE, cosine);
        let omc2 = fx_mul(omc, omc);
        let omc4 = fx_mul(omc2, omc2);
        let omc5 = fx_mul(omc4, omc);
        crate::fx::fx_add(r0, fx_mul(fx_sub(FX_ONE, r0), omc5))
    }
}

impl DiffuseLight {
    pub fn new(emit: &Vec3) -> (m: DiffuseLight)
        ensures
            m.tex == Texture::Solid(SolidColor { color_value: *emit }),
    {
        DiffuseLight { tex: Texture::Solid(SolidColor::new(emit)) }
    }
}

impl Isotropic {
    pub fn new(a: &Vec3) -> (m: Isotropic)
        ensures
            m.albedo == Texture::Solid(SolidColor { color_value: *a }),
    {
        Isotropic { albedo: Texture::Solid(SolidColor::new(a)) }
    }

    pub fn new_tex(tex: Texture) -> (m: Isotropic)
        ensures
            m.albedo == tex,
    {
        Isotropic { albedo: tex }
    }
}

impl Material {
    /// The emitted radiance at the given texture coordinates and point.
    pub fn emitted(&self, u: i64, v: i64, p: &Point3) -> (r: Vec3)
        requires
            material_wf(*self),
        ensures
            r == emitted_s(*self, u, v, *p),
    {
        proof {
            reveal(emitted_s);
        }
        match self {
            Material::DiffuseLight(d) => d.tex.value(u, v, p),
            _ => Vec3 { x: 0, y: 0, z: 0 },
        }
    }

    /// The density with which this material's own model would have
    /// sampled a direction.
    pub fn scatter_pdf(&self, _r_in: &Ray, rec: &HitRecord, scattered: &Ray) -> (r: i64)
        ensures
            r as int == scatter_pdf_s(*self, *rec, *scattered),
    {
        proof {
            reveal(scatter_pdf_s);
        }
        match self {
            Material::Lambertian(_) => crate::fx::fx_max(
                0,
                fx_div(rec.normal.unit().dot(scattered.direction().unit()), FX_PI),
            ),
            Material::Isotropic(_) => fx_div(FX_ONE, FX_FOUR_PI),
            _ => 0,
        }
    }

    /// Scatter a ray. None means the ray was absorbed (or the surface
    /// only emits).
    pub fn scatter(&self, r_in: &Ray, rec: &HitRecord, s: &mut Sampler) -> (res: Option<
        (Ray, Vec3, i64),
    >)
        requires
            material_wf(*self),
        ensures
            scatter_ok(*self, *r_in, *rec, res),
    {
        proof {
            reveal(scatter_ok);
        }
        match self {
            Material::Lambertian(l) => {
                let uvw: Onb = Onb::new(&rec.normal);
                let d = crate::vec3::random_cosine_direction(s);
                let scatter_direction: Vec3 = uvw.local(&d);
                let scattered: Ray = Ray::new(rec.p, scatter_direction, r_in.time());
                let attenuation: Vec3 = l.texture.value(rec.u, rec.v, &rec.p);
                let pdf = fx_div(uvw.w().dot(*scattered.direction()), FX_PI);
                proof {
                    assert(d.z >= 0 && scattered.dir == onb_local_s(onb_new_s(rec.normal), d));
                }
                Some((scattered, attenuation, pdf))
            },
            Material::Metal(mt) => {
                let reflected: Vec3 = reflect(&r_in.direction().unit(), &rec.normal);
                let f = Vec3::random_in_unit_sphere(s);
                let scattered: Ray = Ray::new(rec.p, reflected.add(f.scale(mt.fuzz)), r_in.time());
                let attenuation: Vec3 = mt.albedo;
                if scattered.direction().dot(rec.normal) > 0 {
                    proof {
                        assert(1024 <= dot_s(f, f) < FX_ONE && scattered.dir == v_add_s(
                            reflect_s(unit_s(r_in.dir), rec.normal),
                            v_scale_s(f, mt.fuzz as int),
                        ));
                    }
                    Some((scattered, attenuation, FX_ONE))
                } else {
                    proof {
                        assert(1024 <= dot_s(f, f) < FX_ONE && dot_s(
                            v_add_s(
                                reflect_s(unit_s(r_in.dir), rec.normal),
                                v_scale_s(f, mt.fuzz as int),
                            ),
                            rec.normal,
                        ) <= 0);
                        if mt.fuzz == 0 {
                            assert(v_scale_s(f, 0) == (Vec3 { x: 0, y: 0, z: 0 }));
                            assert(v_add_s(reflect_s(unit_s(r_in.dir), rec.normal), v_scale_s(f, 0))
                                == reflect_s(unit_s(r_in.dir), rec.normal));
                        }
                    }
                    None
                }
            },
            Material::Dielectric(di) => {
                let refraction_ratio: i64 = if rec.front_face {
                    fx_div(FX_ONE, di.ir)
                } else {
                    di.ir
                };
                let unit_direction: Vec3 = r_in.direction().unit();
                let cos_theta: i64 = fx_min(unit_direction.neg().dot(rec.normal), FX_ONE);
                let sin_theta: i64 = fx_sqrt(fx_sub(FX_ONE, fx_mul(cos_theta, cos_theta)));

                let cannot_refract: bool = fx_mul(refraction_ratio, sin_theta) > FX_ONE;
                let direction: Vec3 = if cannot_refract || Dielectric::reflectance(
                    cos_theta,
                    refraction_ratio,
                ) > s.unit() {
                    reflect(&unit_direction, &rec.normal)
                } else {
                    refract(&unit_direction, &rec.normal, refraction_ratio)
                };

                let scattered: Ray = Ray::new(rec.p, direction, r_in.time());
                let attenuation = Vec3 { x: FX_ONE, y: FX_ONE, z: FX_ONE };
                Some((scattered, attenuation, FX_ONE))
            },
            Material::DiffuseLight(_) => None,
            Material::Isotropic(iso) => {
                let dir = Vec3::random_in_unit_sphere(s);
                let scattered: Ray = Ray::new(rec.p, dir, r_in.time());
                let attenuation: Vec3 = iso.albedo.value(rec.u, rec.v, &rec.p);
                let pdf = fx_div(FX_ONE, FX_FOUR_PI);
                Some((scattered, attenuation, pdf))
            },
        }
    }
}

} // verus!
