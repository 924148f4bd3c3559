use raytracer::camera::{ray_color, Camera, CameraConfig, ImageConfig};
use raytracer::fx::FX_ONE;
use raytracer::hittable_list::{HittableList, Object};
use raytracer::material::{DiffuseLight, Lambertian, Material};
use raytracer::ray::Ray;
use raytracer::rng::Sampler;
use raytracer::sphere::Sphere;
use raytracer::vec3::Vec3;

const ONE: i64 = FX_ONE;

fn fxf(v: f64) -> i64 {
    (v * 65536.0) as i64
}

fn camera(width: u32, spp: u32, depth: i32, background: Vec3) -> Camera {
    Camera::new(
        ImageConfig {
            aspect_ratio: fxf(16.0 / 9.0),
            image_width: width,
            quality: 100,
            samples_per_pixel: spp,
            max_depth: depth,
            background,
        },
        CameraConfig {
            vfov: 90 * ONE,
            look_from: Vec3::new(0, 0, 0),
            look_at: Vec3::new(0, 0, -ONE),
            vup: Vec3::new(0, ONE, 0),
            defocus_angle: 0,
            focus_distance: ONE,
        },
    )
}

#[test]
fn camera_derives_viewport() {
    let cam = camera(400, 10, 10, Vec3::new(0, 0, 0));
    assert_eq!(cam.image_width, 400);
    assert_eq!(cam.image_height, 225);
    // 10 samples round down to a 3 x 3 stratified grid.
    assert_eq!(cam.sqrt_spp, 3);
    // 90 degrees of vertical field of view at focus distance 1 gives a
    // viewport height close to 2.
    assert!((cam.viewport_height - 2 * ONE).abs() < ONE / 20);
    assert_eq!(cam.camera_center, Vec3::new(0, 0, 0));
}

#[test]
fn get_ray_times_are_shutter_samples() {
    let cam = camera(40, 4, 5, Vec3::new(0, 0, 0));
    let mut s = Sampler::from_seed(8);
    for i in 0..20 {
        let r = cam.get_ray(i % 40, i % 22, 0, 0, &mut s);
        assert!(0 <= r.time() && r.time() < ONE);
        assert_eq!(*r.origin(), cam.camera_center);
    }
}

#[test]
fn defocus_origins_stay_on_the_aperture_disk() {
    let cam = Camera::new(
        ImageConfig {
            aspect_ratio: fxf(16.0 / 9.0),
            image_width: 40,
            quality: 100,
            samples_per_pixel: 4,
            max_depth: 5,
            background: Vec3::new(0, 0, 0),
        },
        CameraConfig {
            vfov: 90 * ONE,
            look_from: Vec3::new(ONE, 2 * ONE, 3 * ONE),
            look_at: Vec3::new(0, 0, 0),
            vup: Vec3::new(0, ONE, 0),
            defocus_angle: 10 * ONE,
            focus_distance: 3 * ONE,
        },
    );
    assert!(cam.defocus_angle > 0);
    let bound_x = cam.defocus_disk_u.x.abs() + cam.defocus_disk_v.x.abs() + 2;
    let bound_y = cam.defocus_disk_u.y.abs() + cam.defocus_disk_v.y.abs() + 2;
    let bound_z = cam.defocus_disk_u.z.abs() + cam.defocus_disk_v.z.abs() + 2;
    let mut s = Sampler::from_seed(4);
    let mut moved = false;
    for k in 0..32 {
        let r = cam.get_ray(k % 40, k % 22, 0, 0, &mut s);
        let off = r.origin().sub(cam.camera_center);
        assert!(off.x.abs() <= bound_x && off.y.abs() <= bound_y && off.z.abs() <= bound_z);
        if off != Vec3::new(0, 0, 0) {
            moved = true;
        }
    }
    assert!(moved, "the aperture jitter never moved the origin");
}

#[test]
fn empty_scene_is_exactly_the_background() {
    // Every pixel of an empty scene equals the tone-mapped background,
    // with zero variance across samples.
    let bg = Vec3::new(ONE / 5, 2 * ONE / 5, 3 * ONE / 5);
    let cam = camera(32, 9, 10, bg);
    let world = HittableList::new();
    let mats: Vec<Material> = Vec::new();
    let mut s = Sampler::from_seed(42);
    let img = cam.render(&world, &mats, &mut s);
    assert_eq!(img.len(), 3 * 32 * 18);
    let expected = bg.write_color();
    for px in img.chunks(3) {
        assert_eq!(px[0], expected.0);
        assert_eq!(px[1], expected.1);
        assert_eq!(px[2], expected.2);
    }
}

#[test]
fn ray_color_miss_returns_background_exactly() {
    let bg = Vec3::new(ONE / 2, ONE / 4, ONE / 8);
    let world = HittableList::new();
    let mats: Vec<Material> = Vec::new();
    let mut s = Sampler::from_seed(1);
    let r = Ray::new(Vec3::new(0, 0, 0), Vec3::new(ONE / 3, -ONE / 7, ONE), 0);
    assert_eq!(ray_color(&r, 16, &world, &mats, &bg, &mut s), bg);
    // Exhausted depth is black even on a miss.
    assert_eq!(
        ray_color(&r, -1, &world, &mats, &bg, &mut s),
        Vec3::new(0, 0, 0)
    );
}

#[test]
fn lambertian_under_enclosing_light_converges_to_albedo_times_emission() {
    // A gray Lambertian sphere inside a large uniformly emitting shell:
    // the radiance leaving the surface is analytically albedo * L.
    // The Monte Carlo estimate must converge to that value.
    let albedo = ONE / 2;
    let mut world = HittableList::new();
    world.add(Object::Sphere(Sphere::new(&Vec3::new(0, 0, 0), ONE, 0)));
    world.add(Object::Sphere(Sphere::new(&Vec3::new(0, 0, 0), 50 * ONE, 1)));
    let mats = vec![
        Material::Lambertian(Lambertian::new(&Vec3::new(albedo, albedo, albedo))),
        Material::DiffuseLight(DiffuseLight::new(&Vec3::new(ONE, ONE, ONE))),
    ];
    let bg = Vec3::new(0, 0, 0);
    let r = Ray::new(Vec3::new(0, 0, 3 * ONE), Vec3::new(0, 0, -ONE), 0);
    let analytic = albedo as f64;
    for n in [16u32, 256, 4096] {
        let mut s = Sampler::from_seed(1000 + n as u64);
        let mut sum: i64 = 0;
        for _ in 0..n {
            let c = ray_color(&r, 50, &world, &mats, &bg, &mut s);
            sum += c.x;
        }
        let mean = sum as f64 / n as f64;
        let rel = (mean - analytic).abs() / analytic;
        assert!(
            rel < 0.02,
            "estimate off by {:.4} at {} samples (mean {:.1})",
            rel,
            n,
            mean
        );
    }
}

#[test]
fn two_sphere_scene_shows_sky_at_the_top() {
    // A white diffuse ball on a gray ground ball under a flat sky-blue
    // background: no pixel misbehaves, and the top row stays closer to
    // the sky color than the bottom row.
    let sky = Vec3::new(fxf(0.5), fxf(0.7), ONE);
    let mut world = HittableList::new();
    world.add(Object::Sphere(Sphere::new(
        &Vec3::new(0, 0, -ONE),
        fxf(0.5),
        0,
    )));
    world.add(Object::Sphere(Sphere::new(
        &Vec3::new(0, fxf(-100.5), -ONE),
        100 * ONE,
        1,
    )));
    let mats = vec![
        Material::Lambertian(Lambertian::new(&Vec3::new(ONE, ONE, ONE))),
        Material::Lambertian(Lambertian::new(&Vec3::new(fxf(0.5), fxf(0.5), fxf(0.5)))),
    ];
    let cam = camera(400, 10, 10, sky);
    assert_eq!(cam.image_height, 225);
    let mut s = Sampler::from_seed(2024);
    let img = cam.render(&world, &mats, &mut s);
    assert_eq!(img.len(), 3 * 400 * 225);

    let sky_bytes = sky.write_color();
    let row_distance = |row: usize| -> f64 {
        let mut total = 0.0;
        for i in 0..400usize {
            let base = 3 * (row * 400 + i);
            let dr = img[base] as f64 - sky_bytes.0 as f64;
            let dg = img[base + 1] as f64 - sky_bytes.1 as f64;
            let db = img[base + 2] as f64 - sky_bytes.2 as f64;
            total += (dr * dr + dg * dg + db * db).sqrt();
        }
        total / 400.0
    };
    let top = row_distance(0);
    let bottom = row_distance(224);
    assert!(
        top < bottom,
        "top row (distance {top:.1}) should be closer to the sky than the bottom ({bottom:.1})"
    );
}
