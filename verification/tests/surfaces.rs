use raytracer::bvh::{BvhNode, Prim};
use raytracer::fx::FX_ONE;
use raytracer::hittable_list::{HittableList, Object};
use raytracer::interval::Interval;
use raytracer::material::{Dielectric, DiffuseLight, Isotropic, Lambertian, Material, Metal};
use raytracer::medium::ConstantMedium;
use raytracer::pdf::{CosinePDF, HittablePDF, SpherePDF};
use raytracer::quad::{cobox, Quad};
use raytracer::ray::Ray;
use raytracer::rng::Sampler;
use raytracer::sphere::Sphere;
use raytracer::texture::{CheckerTexture, ImageTexture, SolidColor, Texture};
use raytracer::vec3::Vec3;

const ONE: i64 = FX_ONE;
const T_EPS: i64 = 66;

fn full() -> Interval {
    Interval::new(T_EPS, i64::MAX)
}

#[test]
fn sphere_head_on_hit() {
    // From distance 3 straight at a unit sphere at the origin: the hit
    // is at t = 3 - 1 = 2, with a unit outward normal toward the ray.
    let s = Sphere::new(&Vec3::new(0, 0, 0), ONE, 0);
    let r = Ray::new(Vec3::new(0, 0, 3 * ONE), Vec3::new(0, 0, -ONE), 0);
    let rec = s.hit(&r, full()).expect("must hit");
    assert_eq!(rec.t, 2 * ONE);
    assert_eq!(rec.p, Vec3::new(0, 0, ONE));
    assert_eq!(rec.normal, Vec3::new(0, 0, ONE));
    assert!(rec.front_face);
    assert_eq!(rec.normal.length(), ONE);
}

#[test]
fn sphere_miss_and_far_root() {
    let s = Sphere::new(&Vec3::new(0, 0, 0), ONE, 0);
    // A ray pointing away misses.
    let away = Ray::new(Vec3::new(0, 0, 3 * ONE), Vec3::new(0, 0, ONE), 0);
    assert!(s.hit(&away, full()).is_none());
    // A sideways ray misses.
    let side = Ray::new(Vec3::new(0, 3 * ONE, 3 * ONE), Vec3::new(0, 0, -ONE), 0);
    assert!(s.hit(&side, full()).is_none());
    // From inside, the near root is behind the minimum, so the far
    // root (the shell from inside) is taken.
    let inside = Ray::new(Vec3::new(0, 0, 0), Vec3::new(0, 0, -ONE), 0);
    let rec = s.hit(&inside, full()).expect("must hit the far side");
    assert_eq!(rec.t, ONE);
    assert!(!rec.front_face);
}

#[test]
fn moving_sphere_center_interpolates() {
    let s = Sphere::new_moving(&Vec3::new(0, 0, 0), ONE, 0, &Vec3::new(2 * ONE, 0, 0));
    assert_eq!(s.sphere_center(0), Vec3::new(0, 0, 0));
    assert_eq!(s.sphere_center(ONE / 2), Vec3::new(ONE, 0, 0));
    // The box must hold the sphere at both ends of the motion.
    let bb = s.bounding_box();
    assert!(bb.x.min <= -ONE && bb.x.max >= 3 * ONE);
}

#[test]
fn quad_hit_and_planar_containment() {
    // The canonical unit quad in the xy-plane.
    let q = Quad::new(
        &Vec3::new(0, 0, 0),
        &Vec3::new(ONE, 0, 0),
        &Vec3::new(0, ONE, 0),
        0,
    );
    // A point strictly inside maps to alpha, beta strictly in (0, 1).
    let r = Ray::new(Vec3::new(ONE / 4, ONE / 2, 2 * ONE), Vec3::new(0, 0, -ONE), 0);
    let rec = q.hit(&r, full()).expect("must hit");
    assert_eq!(rec.t, 2 * ONE);
    assert_eq!(rec.u, ONE / 4);
    assert_eq!(rec.v, ONE / 2);
    assert!(0 < rec.u && rec.u < ONE);
    assert!(0 < rec.v && rec.v < ONE);
    // A point outside the parallelogram has a coordinate outside [0, 1]
    // and is rejected.
    let out = Ray::new(
        Vec3::new(3 * ONE / 2, ONE / 2, 2 * ONE),
        Vec3::new(0, 0, -ONE),
        0,
    );
    assert!(q.hit(&out, full()).is_none());
    // Parallel rays are rejected.
    let par = Ray::new(Vec3::new(0, 0, 2 * ONE), Vec3::new(ONE, 0, 0), 0);
    assert!(q.hit(&par, full()).is_none());
}

#[test]
fn quad_pdf_value_head_on() {
    // Straight above the unit quad at height 1, aiming down: distance
    // 1, full cosine, area 1, so the weight is 1.
    let q = Quad::new(
        &Vec3::new(0, 0, 0),
        &Vec3::new(ONE, 0, 0),
        &Vec3::new(0, ONE, 0),
        0,
    );
    let v = q.pdf_value(&Vec3::new(ONE / 2, ONE / 2, ONE), &Vec3::new(0, 0, -ONE));
    assert_eq!(v, ONE);
    // A direction that misses weighs zero.
    let miss = q.pdf_value(&Vec3::new(ONE / 2, ONE / 2, ONE), &Vec3::new(0, 0, ONE));
    assert_eq!(miss, 0);
}

#[test]
fn quad_random_points_at_surface() {
    let q = Quad::new(
        &Vec3::new(0, 0, 0),
        &Vec3::new(ONE, 0, 0),
        &Vec3::new(0, ONE, 0),
        0,
    );
    let mut s = Sampler::from_seed(7);
    let o = Vec3::new(0, 0, ONE);
    for _ in 0..32 {
        let d = q.random(&o, &mut s);
        // The sampled direction ends on the quad: z goes from 1 to 0.
        assert_eq!(d.z, -ONE);
        assert!(d.x >= 0 && d.x < ONE);
        assert!(d.y >= 0 && d.y < ONE);
    }
}

#[test]
fn materials_behave_per_model() {
    let mut s = Sampler::from_seed(3);
    let rec = raytracer::hittable::HitRecord {
        p: Vec3::new(0, 0, 0),
        normal: Vec3::new(0, 0, ONE),
        mat: 0,
        t: ONE,
        front_face: true,
        u: 0,
        v: 0,
    };
    let r_in = Ray::new(Vec3::new(0, 0, 2 * ONE), Vec3::new(0, 0, -ONE), 5);

    let lam = Material::Lambertian(Lambertian::new(&Vec3::new(ONE / 2, ONE / 4, ONE / 8)));
    let (scattered, attenuation, _pdf) = lam.scatter(&r_in, &rec, &mut s).expect("diffuse scatters");
    assert_eq!(*scattered.origin(), rec.p);
    assert_eq!(scattered.time(), 5);
    assert_eq!(attenuation, Vec3::new(ONE / 2, ONE / 4, ONE / 8));
    // The diffuse density is cos(theta)/pi over normal and scattered
    // direction; straight along the normal it is exactly 1/pi.
    let straight_up = Ray::new(rec.p, Vec3::new(0, 0, ONE), 0);
    assert_eq!(lam.scatter_pdf(&r_in, &rec, &straight_up), 20860);
    let sideways = Ray::new(rec.p, Vec3::new(ONE, 0, 0), 0);
    assert_eq!(lam.scatter_pdf(&r_in, &rec, &sideways), 0);
    let below = Ray::new(rec.p, Vec3::new(0, 0, -ONE), 0);
    assert_eq!(lam.scatter_pdf(&r_in, &rec, &below), 0);

    let metal = Material::Metal(Metal::new(&Vec3::new(ONE, ONE, ONE), 0));
    let (ms, ma, mp) = metal.scatter(&r_in, &rec, &mut s).expect("mirror scatters");
    assert_eq!(ms.direction(), &Vec3::new(0, 0, ONE));
    assert_eq!(ma, Vec3::new(ONE, ONE, ONE));
    assert_eq!(mp, ONE);
    assert!(ms.direction().dot(rec.normal) > 0);

    let light = Material::DiffuseLight(DiffuseLight::new(&Vec3::new(4 * ONE, 4 * ONE, 4 * ONE)));
    assert!(light.scatter(&r_in, &rec, &mut s).is_none());
    assert_eq!(
        light.emitted(0, 0, &rec.p),
        Vec3::new(4 * ONE, 4 * ONE, 4 * ONE)
    );

    let iso = Material::Isotropic(Isotropic::new(&Vec3::new(ONE, 0, 0)));
    let (_is2, ia, ip) = iso.scatter(&r_in, &rec, &mut s).expect("isotropic scatters");
    assert_eq!(ia, Vec3::new(ONE, 0, 0));
    // 1/(4 pi) in fixed point.
    assert_eq!(ip, 5215);
    assert_eq!(iso.scatter_pdf(&r_in, &rec, &_is2), 5215);
}

#[test]
fn dielectric_round_trip_is_undeviated() {
    // A matched index (ir = 1): entering and leaving a sphere head on
    // keeps the direction exactly.
    let mut s = Sampler::from_seed(11);
    let glass = Material::Dielectric(Dielectric::new(ONE));
    let sphere = Sphere::new(&Vec3::new(0, 0, 0), ONE, 0);
    let r1 = Ray::new(Vec3::new(0, 0, 3 * ONE), Vec3::new(0, 0, -ONE), 0);
    let rec1 = sphere.hit(&r1, full()).expect("entry");
    assert!(rec1.front_face);
    let (r2, att, _) = glass.scatter(&r1, &rec1, &mut s).expect("always scatters");
    assert_eq!(att, Vec3::new(ONE, ONE, ONE));
    assert_eq!(*r2.direction(), *r1.direction());
    let rec2 = sphere.hit(&r2, full()).expect("exit");
    assert!(!rec2.front_face);
    let (r3, _, _) = glass.scatter(&r2, &rec2, &mut s).expect("always scatters");
    assert_eq!(*r3.direction(), *r1.direction());
}

#[test]
fn dielectric_total_internal_reflection() {
    // From inside glass at a steep angle, refraction is geometrically
    // impossible, so the ray must reflect, whatever the Schlick draw.
    let mut s = Sampler::from_seed(9);
    let glass = Material::Dielectric(Dielectric::new(3 * ONE / 2));
    let rec = raytracer::hittable::HitRecord {
        p: Vec3::new(0, 0, 0),
        normal: Vec3::new(0, 0, ONE),
        mat: 0,
        t: ONE,
        front_face: false,
        u: 0,
        v: 0,
    };
    let r_in = Ray::new(Vec3::new(-4 * ONE, 0, 3 * ONE), Vec3::new(4 * ONE, 0, -3 * ONE), 0);
    for _ in 0..8 {
        let (scattered, _, _) = glass.scatter(&r_in, &rec, &mut s).expect("always scatters");
        assert_eq!(*scattered.direction(), Vec3::new(52428, 0, 39321));
    }
}

#[test]
fn textures_lookup() {
    let solid = Texture::Solid(SolidColor::new(&Vec3::new(ONE, 0, ONE / 2)));
    assert_eq!(
        solid.value(0, 0, &Vec3::new(9, 9, 9)),
        Vec3::new(ONE, 0, ONE / 2)
    );
    let checker = Texture::Checker(CheckerTexture::new_rgb(
        ONE,
        &Vec3::new(ONE, 0, 0),
        &Vec3::new(0, ONE, 0),
    ));
    // Cell parity at (0.5, 0.5, 0.5) is even; one cell over in x is odd.
    assert_eq!(
        checker.value(0, 0, &Vec3::new(ONE / 2, ONE / 2, ONE / 2)),
        Vec3::new(0, ONE, 0)
    );
    assert_eq!(
        checker.value(0, 0, &Vec3::new(3 * ONE / 2, ONE / 2, ONE / 2)),
        Vec3::new(ONE, 0, 0)
    );
    // Lattice coordinates truncate toward zero, so a point just below
    // zero still lands in the even cell.
    assert_eq!(
        checker.value(0, 0, &Vec3::new(-ONE / 2, ONE / 2, ONE / 2)),
        Vec3::new(0, ONE, 0)
    );
    // An image texture decodes its bytes with square gamma; byte 255
    // decodes to exactly 1.
    let img = Texture::Image(ImageTexture::new(1, 1, vec![255u8, 0u8, 128u8]));
    let c = img.value(ONE / 2, ONE / 2, &Vec3::new(0, 0, 0));
    assert_eq!(c.x, ONE);
    assert_eq!(c.y, 0);
    assert!(c.z > 0 && c.z < ONE / 3);
    // An empty image falls back to the debug cyan.
    let broken = Texture::Image(ImageTexture::new(0, 0, vec![]));
    assert_eq!(broken.value(0, 0, &Vec3::new(0, 0, 0)), Vec3::new(0, ONE, ONE));
}

#[test]
fn noise_texture_is_bounded() {
    let mut s = Sampler::from_seed(21);
    let noise = Texture::Noise(raytracer::texture::NoiseTexture::new(4 * ONE, &mut s));
    for i in 0..32i64 {
        let p = Vec3::new(i * 1234, -i * 777, i * 31 + 5);
        let c = noise.value(0, 0, &p);
        assert!(c.x >= 0 && c.x <= 2 * ONE, "noise out of range: {}", c.x);
        assert_eq!(c.x, c.y);
        assert_eq!(c.y, c.z);
    }
}

#[test]
fn hittable_list_takes_closest() {
    let mut world = HittableList::new();
    world.add(Object::Sphere(Sphere::new(&Vec3::new(0, 0, -5 * ONE), ONE, 0)));
    world.add(Object::Sphere(Sphere::new(&Vec3::new(0, 0, -2 * ONE), ONE / 2, 1)));
    let r = Ray::new(Vec3::new(0, 0, 0), Vec3::new(0, 0, -ONE), 0);
    let rec = world.hit(&r, full()).expect("must hit");
    // The nearer small sphere wins.
    assert_eq!(rec.mat, 1);
    assert_eq!(rec.t, 3 * ONE / 2);
}

#[test]
fn cobox_builds_six_faces() {
    let mut s = Sampler::from_seed(5);
    let b = cobox(&Vec3::new(0, 0, 0), &Vec3::new(ONE, 2 * ONE, 3 * ONE), 0, &mut s);
    match &b {
        Object::Node(node) => {
            assert_eq!(node.prims.len(), 6);
            let bb = node.bounding_box();
            assert!(bb.x.min <= 0 && bb.x.max >= ONE);
            assert!(bb.y.min <= 0 && bb.y.max >= 2 * ONE);
            assert!(bb.z.min <= 0 && bb.z.max >= 3 * ONE);
        }
        _ => panic!("cobox must build a hierarchy"),
    }
    // A ray at the box hits a face.
    let r = Ray::new(Vec3::new(ONE / 2, ONE, 9 * ONE), Vec3::new(0, 0, -ONE), 0);
    assert!(b.hit(&r, full()).is_some());
}

#[test]
fn bvh_matches_linear_scan_on_random_scenes() {
    // Brute-force reference: scan every primitive, narrowing to the
    // closest hit, exactly as the flat list does.
    fn scan(prims: &[Prim], r: &Ray) -> Option<raytracer::hittable::HitRecord> {
        let mut best: Option<raytracer::hittable::HitRecord> = None;
        let mut closest = i64::MAX;
        for p in prims {
            if let Some(h) = p.hit(r, Interval::new(T_EPS, closest)) {
                closest = h.t;
                best = Some(h);
            }
        }
        best
    }

    let mut s = Sampler::from_seed(12345);
    for round in 0..6u64 {
        let mut world = HittableList::new();
        let n = 3 + (round as usize % 4) * 5;
        for k in 0..n {
            let cx = ((k as i64 * 7919 + round as i64 * 104729) % 17 - 8) * ONE;
            let cy = ((k as i64 * 6101 + 3) % 13 - 6) * ONE;
            let cz = ((k as i64 * 4513 + 11) % 19 - 9) * ONE;
            if k % 3 == 0 {
                world.add(Object::Quad(Quad::new(
                    &Vec3::new(cx, cy, cz),
                    &Vec3::new(2 * ONE, 0, 0),
                    &Vec3::new(0, 2 * ONE, 0),
                    0,
                )));
            } else {
                world.add(Object::Sphere(Sphere::new(
                    &Vec3::new(cx, cy, cz),
                    ONE / 2 + (k as i64 % 3) * ONE / 4,
                    0,
                )));
            }
        }
        let node = BvhNode::from_list(&world, &mut s);
        let prims: &Vec<Prim> = &node.prims;
        for j in 0..40i64 {
            // The direction components stay away from exact zeros and
            // lattice alignments: an axis-parallel ray grazing a box
            // face exactly is the boundary case the coverage
            // hypothesis of the equivalence theorem excludes.
            let orig = Vec3::new((j % 5 - 2) * ONE, (j % 7 - 3) * ONE, 25 * ONE);
            let dir = Vec3::new((j % 11 - 5) * ONE / 8 + 7, (j % 9 - 4) * ONE / 8 + 3, -ONE);
            let r = Ray::new(orig, dir, 0);
            let from_tree = node.hit(&r, full());
            let from_scan = scan(prims, &r);
            match (from_tree, from_scan) {
                (None, None) => {}
                (Some(a), Some(b)) => {
                    assert_eq!(a.t, b.t, "round {round} ray {j}: parameters differ");
                    assert_eq!(a.p, b.p);
                }
                (a, b) => panic!(
                    "round {round} ray {j}: tree {:?} vs scan {:?}",
                    a.map(|h| h.t),
                    b.map(|h| h.t)
                ),
            }
        }
    }
}

#[test]
fn sphere_texture_coordinates_from_unit_normal() {
    // The equirectangular map reads the unit outward normal, so the
    // coordinates do not depend on the radius: the +z point of any
    // sphere maps to (1/4, 1/2).
    for radius in [ONE, 2 * ONE] {
        let s = Sphere::new(&Vec3::new(0, 0, 0), radius, 0);
        let r = Ray::new(Vec3::new(0, 0, 5 * ONE), Vec3::new(0, 0, -ONE), 0);
        let rec = s.hit(&r, full()).expect("must hit");
        assert_eq!(rec.normal, Vec3::new(0, 0, ONE));
        assert_eq!(rec.u, 16383, "radius {radius}");
        assert_eq!(rec.v, 32768, "radius {radius}");
    }
}

#[test]
fn metal_absorbs_below_surface() {
    // A mirror with no fuzz absorbs exactly when the reflection leaves
    // at or below the surface: a ray arriving from behind reflects
    // downward and is absorbed.
    let mut s = Sampler::from_seed(2);
    let metal = Material::Metal(Metal::new(&Vec3::new(ONE, ONE, ONE), 0));
    let rec = raytracer::hittable::HitRecord {
        p: Vec3::new(0, 0, 0),
        normal: Vec3::new(0, 0, ONE),
        mat: 0,
        t: ONE,
        front_face: false,
        u: 0,
        v: 0,
    };
    let from_below = Ray::new(Vec3::new(0, 0, -2 * ONE), Vec3::new(0, 0, ONE), 0);
    assert!(metal.scatter(&from_below, &rec, &mut s).is_none());
}

#[test]
fn medium_scatters_inside_the_boundary() {
    // Unit-density fog bounded by a unit sphere, pierced head on: the
    // segment runs from t = 2 to t = 4. With the draw at one half the
    // free flight is -ln(1/2), which lands inside.
    let fog = ConstantMedium::new(
        Prim::Sphere(Sphere::new(&Vec3::new(0, 0, 0), ONE, 0)),
        ONE,
        1,
    );
    let r = Ray::new(Vec3::new(0, 0, 3 * ONE), Vec3::new(0, 0, -ONE), 0);
    let rec = fog.hit_with_sample(&r, full(), ONE / 2).expect("must scatter");
    assert_eq!(rec.mat, 1);
    assert_eq!(rec.t, 2 * ONE + 45412);
    assert_eq!(rec.p, Vec3::new(0, 0, 20124));
    // A much longer free flight (a draw near zero) passes through.
    assert!(fog.hit_with_sample(&r, full(), 1).is_none());
    // A ray that misses the boundary misses the fog.
    let miss = Ray::new(Vec3::new(0, 5 * ONE, 3 * ONE), Vec3::new(0, 0, -ONE), 0);
    assert!(fog.hit_with_sample(&miss, full(), ONE / 2).is_none());
    // The sampling entry stays within the segment whatever the draw.
    let mut s = Sampler::from_seed(77);
    for _ in 0..32 {
        if let Some(h) = fog.hit(&r, full(), &mut s) {
            assert!(2 * ONE <= h.t && h.t <= 4 * ONE);
        }
    }
}

#[test]
fn noise_values_stay_inside_the_unit_interval() {
    let mut s = Sampler::from_seed(31);
    let perlin = raytracer::perlin::Perlin::new(&mut s);
    for i in 0..64i64 {
        let p = Vec3::new(i * 9551 - 100000, -i * 777, i * 3141 + 5);
        let n = perlin.noise(&p);
        assert!((0..ONE).contains(&n), "noise out of range: {n}");
    }
}

#[test]
fn translate_shifts_hits() {
    let sphere = Prim::Sphere(Sphere::new(&Vec3::new(0, 0, 0), ONE, 0));
    let moved = Prim::Translate(raytracer::translate::Translate::new(
        sphere,
        &Vec3::new(0, 0, -5 * ONE),
    ));
    let r = Ray::new(Vec3::new(0, 0, 0), Vec3::new(0, 0, -ONE), 0);
    let rec = moved.hit(&r, full()).expect("the shifted sphere is ahead");
    assert_eq!(rec.t, 4 * ONE);
    assert_eq!(rec.p, Vec3::new(0, 0, -4 * ONE));
    assert_eq!(rec.normal, Vec3::new(0, 0, ONE));
    // The box moved with the object.
    let bb = moved.bounding_box();
    assert!(bb.z.min <= -6 * ONE && bb.z.max >= -4 * ONE);
}

#[test]
fn rotate_y_carries_an_object_around() {
    // A sphere ahead on +x, rotated a quarter turn about y, ends up
    // near -z (up to the polynomial approximation of the angle).
    let sphere = Prim::Sphere(Sphere::new(&Vec3::new(3 * ONE, 0, 0), ONE, 0));
    let turned = Prim::RotateY(raytracer::translate::RotateY::new(sphere, 90 * ONE));
    let bb = turned.bounding_box();
    assert!((bb.z.max - (-2 * ONE)).abs() < ONE / 4, "z max {}", bb.z.max);
    assert!((bb.x.min + ONE).abs() < ONE / 4 && (bb.x.max - ONE).abs() < ONE / 4);
    let r = Ray::new(Vec3::new(0, 0, -10 * ONE), Vec3::new(0, 0, ONE), 0);
    let rec = turned.hit(&r, full()).expect("the rotated sphere is ahead");
    assert!(6 * ONE < rec.t && rec.t < 8 * ONE);
    // The world-space normal faces the ray.
    assert!(rec.normal.z < 0);
}

#[test]
fn sampling_densities() {
    let mut s = Sampler::from_seed(17);
    let sph = SpherePDF::new();
    // 1/(4 pi) for every direction.
    assert_eq!(sph.value(&Vec3::new(ONE, 0, 0)), 5215);
    let g = sph.generate(&mut s);
    assert!(g.length_squared() > 0);

    // Cosine density along its own axis is 1/pi; sideways it is zero.
    let cos = CosinePDF::new(&Vec3::new(0, 0, ONE));
    assert_eq!(cos.value(&Vec3::new(0, 0, 2 * ONE)), 20860);
    assert_eq!(cos.value(&Vec3::new(ONE, 0, 0)), 0);
    let d = cos.generate(&mut s);
    assert!(d.z >= 0);

    // A single head-on unit quad light: the averaged weight equals the
    // quad's own weight, one.
    let mut lights = HittableList::new();
    lights.add(Object::Quad(Quad::new(
        &Vec3::new(0, 0, 0),
        &Vec3::new(ONE, 0, 0),
        &Vec3::new(0, ONE, 0),
        0,
    )));
    let hp = HittablePDF::new(&lights, &Vec3::new(ONE / 2, ONE / 2, ONE));
    assert_eq!(hp.value(&Vec3::new(0, 0, -ONE)), ONE);
    let ld = hp.generate(&mut s);
    assert_eq!(ld.z, -ONE);
}

#[test]
fn sampler_draws_vary_and_stay_in_range() {
    let mut s = Sampler::from_seed(99);
    let mut seen_nonzero = false;
    let mut seen_negative = false;
    for _ in 0..200 {
        let u = s.unit();
        assert!((0..ONE).contains(&u));
        if u > 0 {
            seen_nonzero = true;
        }
        let v = s.symmetric();
        assert!((-ONE..ONE).contains(&v));
        if v < 0 {
            seen_negative = true;
        }
        let k = s.below(7);
        assert!(k < 7);
    }
    assert!(seen_nonzero, "uniform draws were all zero");
    assert!(seen_negative, "symmetric draws never went negative");
}
