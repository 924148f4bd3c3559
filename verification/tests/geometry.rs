use raytracer::aabb::AABB;
use raytracer::fx::{fx_add, fx_div, fx_mul, fx_sqrt, fx_sub, FX_ONE};
use raytracer::interval::Interval;
use raytracer::onb::Onb;
use raytracer::ray::Ray;
use raytracer::trig::{
    fx_acos, fx_atan2, fx_cos, fx_neg_ln, fx_sin, fx_tan, FX_HALF_PI, FX_LN2, FX_QUARTER_PI,
};
use raytracer::vec3::{cross, reflect, refract, Vec3};

const ONE: i64 = FX_ONE;

#[test]
fn fx_arithmetic_exact_values() {
    assert_eq!(fx_add(ONE, ONE), 2 * ONE);
    assert_eq!(fx_sub(3 * ONE, ONE), 2 * ONE);
    assert_eq!(fx_mul(2 * ONE, 3 * ONE), 6 * ONE);
    assert_eq!(fx_mul(ONE / 2, ONE / 2), ONE / 4);
    assert_eq!(fx_div(6 * ONE, 3 * ONE), 2 * ONE);
    assert_eq!(fx_div(ONE, 2 * ONE), ONE / 2);
    assert_eq!(fx_sqrt(4 * ONE), 2 * ONE);
    assert_eq!(fx_sqrt(ONE), ONE);
    assert_eq!(fx_sqrt(-5), 0);
}

#[test]
fn fx_saturates_instead_of_wrapping() {
    assert_eq!(fx_add(i64::MAX, i64::MAX), i64::MAX);
    assert_eq!(fx_sub(i64::MIN, ONE), i64::MIN);
    assert_eq!(fx_mul(i64::MAX, i64::MAX), i64::MAX);
    // Division by zero saturates in the dividend's direction.
    assert_eq!(fx_div(ONE, 0), i64::MAX);
    assert_eq!(fx_div(-ONE, 0), i64::MIN);
}

#[test]
fn interval_contains_and_expand() {
    let iv = Interval::new(ONE, 3 * ONE);
    assert!(iv.contains(ONE));
    assert!(iv.contains(2 * ONE));
    assert!(iv.contains(3 * ONE));
    assert!(!iv.contains(ONE - 1));
    assert!(!iv.surrounds(ONE));
    assert!(iv.surrounds(ONE + 1));
    let grown = iv.expand(ONE);
    assert_eq!(grown.min, ONE - ONE / 2);
    assert_eq!(grown.max, 3 * ONE + ONE / 2);
    assert_eq!(iv.clamp(0), ONE);
    assert_eq!(iv.clamp(10 * ONE), 3 * ONE);
    assert_eq!(iv.size(), 2 * ONE);
}

#[test]
fn aabb_construction_and_union() {
    let a = Vec3::new(0, 0, 0);
    let b = Vec3::new(2 * ONE, -ONE, 3 * ONE);
    let bb = AABB::two_point(&a, &b);
    assert_eq!(bb.x.min, 0);
    assert_eq!(bb.x.max, 2 * ONE);
    assert_eq!(bb.y.min, -ONE);
    assert_eq!(bb.y.max, 0);
    assert_eq!(bb.z.min, 0);
    assert_eq!(bb.z.max, 3 * ONE);
    let z = AABB::zero();
    let u = AABB::two_aabb(&z, &bb);
    assert_eq!(u.x.max, 2 * ONE);
    assert_eq!(u.y.min, -ONE);
    assert_eq!(bb.axis_interval(0).max, 2 * ONE);
    assert_eq!(bb.axis_interval(1).min, -ONE);
    assert_eq!(bb.axis_interval(2).max, 3 * ONE);
    assert_eq!(bb.longest_axis(), 2);
}

#[test]
fn aabb_pads_flat_axes() {
    // A degenerate axis is padded to a small positive thickness.
    let flat = AABB::new(
        Interval::new(0, 0),
        Interval::new(0, ONE),
        Interval::new(0, ONE),
    );
    assert!(flat.x.max > flat.x.min);
    assert_eq!(flat.y.min, 0);
    assert_eq!(flat.y.max, ONE);
}

#[test]
fn aabb_slab_test_known_intersection() {
    // Box x in [2, 4], y and z in [-1, 1]; a +x axis ray from the origin
    // enters at t = 2 and leaves at t = 4.
    let bb = AABB::new(
        Interval::new(2 * ONE, 4 * ONE),
        Interval::new(-ONE, ONE),
        Interval::new(-ONE, ONE),
    );
    let r = Ray::new(Vec3::new(0, 0, 0), Vec3::new(ONE, 0, 0), 0);
    assert!(bb.hit(&r, Interval::new(66, i64::MAX)));
    // An interval that ends before the entry misses.
    assert!(!bb.hit(&r, Interval::new(66, 2 * ONE - 1)));
    // An interval that starts after the exit misses.
    assert!(!bb.hit(&r, Interval::new(4 * ONE + 1, i64::MAX)));
    // Narrowing to exactly [max(t0, lo), min(t1, hi)]: a window inside
    // (2, 4) still hits.
    assert!(bb.hit(&r, Interval::new(3 * ONE - 1, 3 * ONE + 1)));
    // A ray pointing away misses.
    let away = Ray::new(Vec3::new(0, 0, 0), Vec3::new(-ONE, 0, 0), 0);
    assert!(!bb.hit(&away, Interval::new(66, i64::MAX)));
    // A zero direction component constrains the origin to the slab.
    let parallel = Ray::new(Vec3::new(3 * ONE, 5 * ONE, 0), Vec3::new(0, -ONE, 0), 0);
    assert!(bb.hit(&parallel, Interval::new(66, i64::MAX)));
    let outside = Ray::new(Vec3::new(5 * ONE, 5 * ONE, 0), Vec3::new(0, -ONE, 0), 0);
    assert!(!bb.hit(&outside, Interval::new(66, i64::MAX)));
    // An origin exactly on a slab face with a zero direction component
    // counts as a miss.
    let on_face = Ray::new(Vec3::new(2 * ONE, 5 * ONE, 0), Vec3::new(0, -ONE, 0), 0);
    assert!(!bb.hit(&on_face, Interval::new(66, i64::MAX)));
}

#[test]
fn vec3_operations() {
    let a = Vec3::new(ONE, 2 * ONE, 3 * ONE);
    let b = Vec3::new(4 * ONE, 5 * ONE, 6 * ONE);
    assert_eq!(a.add(b), Vec3::new(5 * ONE, 7 * ONE, 9 * ONE));
    assert_eq!(b.sub(a), Vec3::new(3 * ONE, 3 * ONE, 3 * ONE));
    assert_eq!(a.scale(2 * ONE), Vec3::new(2 * ONE, 4 * ONE, 6 * ONE));
    assert_eq!(a.div(2 * ONE), Vec3::new(ONE / 2, ONE, 3 * ONE / 2));
    assert_eq!(a.dot(b), 32 * ONE);
    assert_eq!(
        cross(&Vec3::new(ONE, 0, 0), &Vec3::new(0, ONE, 0)),
        Vec3::new(0, 0, ONE)
    );
    assert_eq!(a.neg(), Vec3::new(-ONE, -2 * ONE, -3 * ONE));
    // A 3-4-5 triangle normalizes exactly in the x and y ratios.
    let v = Vec3::new(3 * ONE, 4 * ONE, 0);
    assert_eq!(v.length_squared(), 25 * ONE);
    assert_eq!(v.length(), 5 * ONE);
    let u = v.unit();
    assert_eq!(u.x, 3 * ONE / 5);
    assert_eq!(u.y, 4 * ONE / 5);
    assert_eq!(u.z, 0);
}

#[test]
fn reflect_mirrors_about_normal() {
    // A 45-degree incoming direction reflects across the y normal.
    let v = Vec3::new(ONE, -ONE, 0);
    let n = Vec3::new(0, ONE, 0);
    assert_eq!(reflect(&v, &n), Vec3::new(ONE, ONE, 0));
}

#[test]
fn refract_matched_index_is_identity() {
    // Matched refraction index: the direction passes through unchanged.
    let d = Vec3::new(0, 0, -ONE);
    let n = Vec3::new(0, 0, ONE);
    assert_eq!(refract(&d, &n, ONE), d);
}

#[test]
fn onb_of_z_axis() {
    let w = Vec3::new(0, 0, ONE);
    let basis = Onb::new(&w);
    assert_eq!(basis.w(), Vec3::new(0, 0, ONE));
    // The basis maps local +z back to the axis.
    let local = basis.local(&Vec3::new(0, 0, ONE));
    assert_eq!(local, Vec3::new(0, 0, ONE));
    // u and v are horizontal unit axes.
    assert_eq!(basis.u().dot(basis.w()), 0);
    assert_eq!(basis.v().dot(basis.w()), 0);
}

#[test]
fn ray_evaluation() {
    let r = Ray::new(Vec3::new(ONE, 0, 0), Vec3::new(0, 2 * ONE, 0), 77);
    assert_eq!(*r.origin(), Vec3::new(ONE, 0, 0));
    assert_eq!(*r.direction(), Vec3::new(0, 2 * ONE, 0));
    assert_eq!(r.time(), 77);
    assert_eq!(r.at(ONE / 2), Vec3::new(ONE, ONE, 0));
}

#[test]
fn trig_approximations() {
    assert_eq!(fx_sin(0), 0);
    assert_eq!(fx_cos(0), ONE);
    assert_eq!(fx_atan2(0, ONE), 0);
    assert_eq!(fx_acos(ONE), 0);
    // tan(pi/4) is 1 up to the polynomial approximation error.
    let t = fx_tan(FX_QUARTER_PI);
    assert!((t - ONE).abs() < ONE / 20, "tan(pi/4) = {t}");
    // sin(pi/2) close to 1.
    let s = fx_sin(FX_HALF_PI);
    assert!((s - ONE).abs() < ONE / 100, "sin(pi/2) = {s}");
}

#[test]
fn negated_logarithm() {
    // -ln(1) is exactly zero; -ln(1/2) is ln 2 up to the series error;
    // halving again adds another ln 2 exactly.
    assert_eq!(fx_neg_ln(ONE), 0);
    let l2 = fx_neg_ln(ONE / 2);
    assert!((l2 - FX_LN2).abs() < 20, "-ln(1/2) = {l2}");
    assert_eq!(fx_neg_ln(ONE / 4), l2 + FX_LN2);
    // The logarithm diverges at zero.
    assert_eq!(fx_neg_ln(0), i64::MAX);
}
