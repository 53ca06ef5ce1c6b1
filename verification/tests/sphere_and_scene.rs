use std::rc::Rc;

use raytrace::common::fixed::FP_ONE;
use raytrace::common::interval::Interval;
use raytrace::common::ray::Ray;
use raytrace::common::vec3::Vector3;
use raytrace::common::{RAY_MINIMUM_DISTANCE_BEFORE_HIT, RAY_T_MAX};
use raytrace::materials::lambertian::Lambertian;
use raytrace::materials::{MatRc, MaterialKind};
use raytrace::primitive::hittable_list::HittableList;
use raytrace::primitive::sphere::Sphere;

fn grey() -> MatRc {
    Rc::new(MaterialKind::Lambertian(Lambertian::build_explicit(32768, 32768, 32768)))
}

fn tinted(r: i128) -> MatRc {
    Rc::new(MaterialKind::Lambertian(Lambertian::build_explicit(r, 16384, 16384)))
}

fn full_range() -> Interval {
    Interval::build(RAY_MINIMUM_DISTANCE_BEFORE_HIT, RAY_T_MAX)
}

#[test]
fn head_on_hit_reports_nearest_root() {
    // Sphere at (0, 0, -1) with radius one half, ray from the origin
    // straight down the depth axis: t = 0.5, point (0, 0, -0.5),
    // normal (0, 0, 1), front face.
    let material = grey();
    let sphere = Sphere::build_explicit((0, 0, -FP_ONE), 32768, &material);
    let ray = Ray::build(&Vector3::build(0, 0, 0), &Vector3::build(0, 0, -FP_ONE));
    let (hit, rec) = sphere.hit(&ray, &full_range());
    assert!(hit);
    let rec = rec.unwrap();
    assert_eq!(rec.t, 32768);
    let p = rec.point();
    assert_eq!((p.x(), p.y(), p.z()), (0, 0, -32768));
    let n = rec.normal();
    assert_eq!((n.x(), n.y(), n.z()), (0, 0, FP_ONE));
    assert!(rec.front_face());
}

#[test]
fn ray_beside_sphere_misses() {
    // The ray's whole line passes beside the sphere: no hit.
    let material = grey();
    let sphere = Sphere::build_explicit((0, 0, -FP_ONE), 32768, &material);
    let ray = Ray::build(&Vector3::build(0, 5 * FP_ONE, 0), &Vector3::build(0, 0, -FP_ONE));
    let (hit, rec) = sphere.hit(&ray, &full_range());
    assert!(!hit);
    assert!(rec.is_none());
}

#[test]
fn ray_pointing_away_misses() {
    let material = grey();
    let sphere = Sphere::build_explicit((0, 0, -4 * FP_ONE), FP_ONE, &material);
    let ray = Ray::build(&Vector3::build(0, 0, 0), &Vector3::build(0, 0, FP_ONE));
    let (hit, _) = sphere.hit(&ray, &full_range());
    assert!(!hit);
}

#[test]
fn origin_inside_sphere_takes_larger_root() {
    // From the centre of a unit sphere the smaller root is behind the
    // origin; the larger root at t = 1 is taken, and the normal is
    // flipped against the ray.
    let material = grey();
    let sphere = Sphere::build_explicit((0, 0, 0), FP_ONE, &material);
    let ray = Ray::build(&Vector3::build(0, 0, 0), &Vector3::build(0, 0, -FP_ONE));
    let (hit, rec) = sphere.hit(&ray, &full_range());
    assert!(hit);
    let rec = rec.unwrap();
    assert_eq!(rec.t, FP_ONE);
    assert!(!rec.front_face());
    let n = rec.normal();
    assert_eq!((n.x(), n.y(), n.z()), (0, 0, FP_ONE));
}

#[test]
fn hit_outside_valid_range_is_rejected() {
    let material = grey();
    let sphere = Sphere::build_explicit((0, 0, -FP_ONE), 32768, &material);
    let ray = Ray::build(&Vector3::build(0, 0, 0), &Vector3::build(0, 0, -FP_ONE));
    // The only roots are at 0.5 and 1.5; a range ending at 0.4 sees none.
    let (hit, _) = sphere.hit(&ray, &Interval::build(RAY_MINIMUM_DISTANCE_BEFORE_HIT, 26214));
    assert!(!hit);
}

#[test]
fn composite_returns_globally_nearest_hit() {
    // Two spheres on the depth axis at distances 3 and 6, both radius
    // one: the nearest hit is at t = 2 on the closer sphere, whatever
    // the insertion order.
    let near = tinted(FP_ONE);
    let far = tinted(0);
    let s_near = Sphere::build_explicit((0, 0, -3 * FP_ONE), FP_ONE, &near);
    let s_far = Sphere::build_explicit((0, 0, -6 * FP_ONE), FP_ONE, &far);
    let ray = Ray::build(&Vector3::build(0, 0, 0), &Vector3::build(0, 0, -FP_ONE));

    let mut world_a = HittableList::new();
    world_a.add(clone_sphere(&s_near));
    world_a.add(clone_sphere(&s_far));
    let (hit_a, rec_a) = world_a.hit(&ray, &full_range());
    assert!(hit_a);
    let rec_a = rec_a.unwrap();
    assert_eq!(rec_a.t, 2 * FP_ONE);

    let mut world_b = HittableList::new();
    world_b.add(clone_sphere(&s_far));
    world_b.add(clone_sphere(&s_near));
    let (hit_b, rec_b) = world_b.hit(&ray, &full_range());
    assert!(hit_b);
    let rec_b = rec_b.unwrap();
    assert_eq!(rec_b.t, 2 * FP_ONE);

    // Both orders report the nearer sphere's material.
    for rec in [&rec_a, &rec_b] {
        match &*rec.material() {
            MaterialKind::Lambertian(l) => assert_eq!(l.albedo.x(), FP_ONE),
            _ => panic!("unexpected material variant"),
        }
    }
}

#[test]
fn composite_tie_keeps_earlier_member() {
    // Two spheres with identical geometry but different materials: the
    // member added first wins the exact tie.
    let first = tinted(FP_ONE);
    let second = tinted(0);
    let ray = Ray::build(&Vector3::build(0, 0, 0), &Vector3::build(0, 0, -FP_ONE));
    let mut world = HittableList::new();
    world.add(Sphere::build_explicit((0, 0, -3 * FP_ONE), FP_ONE, &first));
    world.add(Sphere::build_explicit((0, 0, -3 * FP_ONE), FP_ONE, &second));
    let (hit, rec) = world.hit(&ray, &full_range());
    assert!(hit);
    match &*rec.unwrap().material() {
        MaterialKind::Lambertian(l) => assert_eq!(l.albedo.x(), FP_ONE),
        _ => panic!("unexpected material variant"),
    }
}

#[test]
fn empty_composite_hits_nothing() {
    let world = HittableList::new();
    let ray = Ray::build(&Vector3::build(0, 0, 0), &Vector3::build(0, 0, -FP_ONE));
    let (hit, rec) = world.hit(&ray, &full_range());
    assert!(!hit);
    assert!(rec.is_none());
}

#[test]
fn clear_empties_the_composite() {
    let material = grey();
    let mut world = HittableList::build(Sphere::build_explicit((0, 0, -3 * FP_ONE), FP_ONE, &material));
    let ray = Ray::build(&Vector3::build(0, 0, 0), &Vector3::build(0, 0, -FP_ONE));
    let (hit_before, _) = world.hit(&ray, &full_range());
    assert!(hit_before);
    world.clear();
    let (hit_after, _) = world.hit(&ray, &full_range());
    assert!(!hit_after);
}

#[test]
fn three_spheres_agree_under_every_rotation() {
    // Three spheres at distances 3, 5 and 7: any cyclic order reports
    // the hit at t = 2 on the nearest one.
    let m1 = tinted(FP_ONE);
    let m2 = tinted(0);
    let m3 = tinted(8192);
    let s1 = Sphere::build_explicit((0, 0, -3 * FP_ONE), FP_ONE, &m1);
    let s2 = Sphere::build_explicit((0, 0, -5 * FP_ONE), FP_ONE, &m2);
    let s3 = Sphere::build_explicit((0, 0, -7 * FP_ONE), FP_ONE, &m3);
    let ray = Ray::build(&Vector3::build(0, 0, 0), &Vector3::build(0, 0, -FP_ONE));
    let orders: [[&Sphere; 3]; 3] = [[&s1, &s2, &s3], [&s2, &s3, &s1], [&s3, &s1, &s2]];
    for order in orders.iter() {
        let mut world = HittableList::new();
        for s in order.iter() {
            world.add(clone_sphere(s));
        }
        let (hit, rec) = world.hit(&ray, &full_range());
        assert!(hit);
        let rec = rec.unwrap();
        assert_eq!(rec.t, 2 * FP_ONE);
        match &*rec.material() {
            MaterialKind::Lambertian(l) => assert_eq!(l.albedo.x(), FP_ONE),
            _ => panic!("unexpected material variant"),
        }
    }
}

fn clone_sphere(s: &Sphere) -> Sphere {
    Sphere::build(&s.center, &s.radius, &s.material)
}
