use raytrace::common::fixed::FP_ONE;
use raytrace::common::random::{random_scalar, random_scalar_standard, sample, Distributions};
use raytrace::common::vec3::{
    cross_product, dot_product, random_on_hemisphere, random_unit_vector, reflect, refract,
    unit_vector, Vector3, UNIT_MAX,
};

#[test]
fn componentwise_arithmetic() {
    let a = Vector3::build(FP_ONE, 2 * FP_ONE, -3 * FP_ONE);
    let b = Vector3::build(32768, -FP_ONE, FP_ONE);
    let s = a.add(&b);
    assert_eq!((s.x(), s.y(), s.z()), (98304, FP_ONE, -2 * FP_ONE));
    let d = a.sub(&b);
    assert_eq!((d.x(), d.y(), d.z()), (32768, 3 * FP_ONE, -4 * FP_ONE));
    let n = a.neg();
    assert_eq!((n.x(), n.y(), n.z()), (-FP_ONE, -2 * FP_ONE, 3 * FP_ONE));
    let m = a.mul(&b);
    assert_eq!((m.x(), m.y(), m.z()), (32768, -2 * FP_ONE, -3 * FP_ONE));
    let t = a.scale(32768);
    assert_eq!((t.x(), t.y(), t.z()), (32768, FP_ONE, -98304));
    let q = a.div(2 * FP_ONE);
    assert_eq!((q.x(), q.y(), q.z()), (32768, FP_ONE, -98304));
}

#[test]
fn vector_accessors() {
    let v = Vector3::build(1, 2, 3);
    assert_eq!(v.index(0), 1);
    assert_eq!(v.index(1), 2);
    assert_eq!(v.index(2), 3);
    let z = Vector3::new();
    assert_eq!((z.x(), z.y(), z.z()), (0, 0, 0));
}

#[test]
fn dot_and_cross_products() {
    let a = Vector3::build(FP_ONE, 0, 0);
    let b = Vector3::build(0, FP_ONE, 0);
    assert_eq!(dot_product(&a, &b), 0);
    assert_eq!(dot_product(&a, &a), FP_ONE);
    let c = cross_product(&a, &b);
    assert_eq!((c.x(), c.y(), c.z()), (0, 0, FP_ONE));
    let c2 = cross_product(&b, &a);
    assert_eq!((c2.x(), c2.y(), c2.z()), (0, 0, -FP_ONE));
}

#[test]
fn length_of_pythagorean_triple() {
    // (3, 4, 0) has length 5 exactly.
    let v = Vector3::build(3 * FP_ONE, 4 * FP_ONE, 0);
    assert_eq!(v.length_squared(), 25 * FP_ONE);
    assert_eq!(v.length(), 5 * FP_ONE);
    let u = unit_vector(&v);
    // 0.6 and 0.8 truncate to 39321 and 52428.
    assert_eq!((u.x(), u.y(), u.z()), (39321, 52428, 0));
}

#[test]
fn unit_vector_of_axis_is_exact() {
    let v = Vector3::build(0, 0, -7 * FP_ONE);
    let u = unit_vector(&v);
    assert_eq!((u.x(), u.y(), u.z()), (0, 0, -FP_ONE));
}

#[test]
fn near_zero_detection() {
    assert!(Vector3::build(0, 0, 0).near_zero());
    assert!(Vector3::build(1, -1, 0).near_zero());
    assert!(!Vector3::build(2, 0, 0).near_zero());
    assert!(!Vector3::build(0, FP_ONE, 0).near_zero());
}

#[test]
fn reflection_about_a_normal() {
    // A ray going down-right reflects to up-right about the up normal.
    let d = Vector3::build(FP_ONE, -FP_ONE, 0);
    let n = Vector3::build(0, FP_ONE, 0);
    let r = reflect(&d, &n);
    assert_eq!((r.x(), r.y(), r.z()), (FP_ONE, FP_ONE, 0));
}

#[test]
fn refraction_straight_through() {
    // Normal incidence with a ratio of one passes straight through.
    let uv = Vector3::build(0, 0, -FP_ONE);
    let n = Vector3::build(0, 0, FP_ONE);
    let r = refract(&uv, &n, FP_ONE);
    assert_eq!((r.x(), r.y(), r.z()), (0, 0, -FP_ONE));
}

#[test]
fn random_unit_vectors_are_bounded() {
    let mut k = 0;
    while k < 50 {
        let u = random_unit_vector();
        assert!(u.x().abs() <= UNIT_MAX);
        assert!(u.y().abs() <= UNIT_MAX);
        assert!(u.z().abs() <= UNIT_MAX);
        // The normalization leaves the squared length close to one unit.
        let ls = u.length_squared();
        assert!(ls > FP_ONE / 2);
        assert!(ls < 2 * FP_ONE);
        k += 1;
    }
}

#[test]
fn hemisphere_samples_point_away_from_surface() {
    let n = Vector3::build(0, FP_ONE, 0);
    let mut k = 0;
    while k < 50 {
        let u = random_on_hemisphere(&n);
        assert!(dot_product(&u, &n) >= 0);
        k += 1;
    }
}

#[test]
fn uniform_draws_stay_in_range() {
    let mut k = 0;
    while k < 100 {
        let a = random_scalar(-FP_ONE, FP_ONE);
        assert!(-FP_ONE <= a && a < FP_ONE);
        let b = random_scalar_standard();
        assert!(0 <= b && b < FP_ONE);
        let c = sample(Distributions::Uniform(10, 20));
        assert!(10 <= c && c < 20);
        let d = sample(Distributions::UniformIncl(-5, 5));
        assert!(-5 <= d && d <= 5);
        let v = Vector3::random(0, 3);
        assert!(0 <= v.x() && v.x() < 3);
        assert!(0 <= v.y() && v.y() < 3);
        assert!(0 <= v.z() && v.z() < 3);
        let w = Vector3::random_standard();
        assert!(0 <= w.x() && w.x() < FP_ONE);
        k += 1;
    }
}
