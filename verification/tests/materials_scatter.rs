use std::rc::Rc;

use raytrace::common::fixed::FP_ONE;
use raytrace::common::ray::Ray;
use raytrace::common::vec3::Vector3;
use raytrace::materials::dielectric::Dialectric;
use raytrace::materials::lambertian::Lambertian;
use raytrace::materials::metal::Metal;
use raytrace::materials::MaterialKind;
use raytrace::primitive::hittable::HitRecord;

fn record_at_origin(normal: Vector3, front_face: bool) -> HitRecord {
    HitRecord {
        point: Vector3::build(0, 0, 0),
        normal: Some(normal),
        material: Rc::new(MaterialKind::Lambertian(Lambertian::new())),
        t: FP_ONE,
        front_face: Some(front_face),
    }
}

#[test]
fn polished_metal_mirrors_exactly() {
    // Fuzz zero: the scattered direction is exactly the normalized
    // mirror reflection, and the ray continues because it points away
    // from the surface.
    let metal = Metal::build_explicit(45875, 39321, 32768, 0);
    let rec = record_at_origin(Vector3::build(0, FP_ONE, 0), true);
    let ray_in = Ray::build(&Vector3::build(-FP_ONE, FP_ONE, 0), &Vector3::build(FP_ONE, -FP_ONE, 0));
    let zero_sample = Vector3::build(0, 0, 0);
    let (continues, attenuation, scattered) = metal.scatter_with(&ray_in, &rec, &zero_sample);
    assert!(continues);
    assert_eq!((attenuation.x(), attenuation.y(), attenuation.z()), (45875, 39321, 32768));
    let d = scattered.direction();
    // (1, 1, 0) normalized in fixed point: 2^32 / 92681 = 46341.
    assert_eq!((d.x(), d.y(), d.z()), (46341, 46341, 0));
    let o = scattered.origin();
    assert_eq!((o.x(), o.y(), o.z()), (0, 0, 0));
}

#[test]
fn fuzzed_metal_bent_below_surface_is_absorbed() {
    // A perturbation pulling the reflection below the surface absorbs
    // the ray.
    let metal = Metal::build_explicit(32768, 32768, 32768, FP_ONE);
    let rec = record_at_origin(Vector3::build(0, FP_ONE, 0), true);
    let ray_in = Ray::build(&Vector3::build(-FP_ONE, FP_ONE, 0), &Vector3::build(FP_ONE, -FP_ONE, 0));
    let down = Vector3::build(0, -FP_ONE, 0);
    let (continues, _, scattered) = metal.scatter_with(&ray_in, &rec, &down);
    // Reflected (46341, 46341, 0) plus the full downward perturbation
    // gives a direction pointing into the surface.
    let d = scattered.direction();
    assert_eq!((d.x(), d.y(), d.z()), (46341, 46341 - FP_ONE, 0));
    assert!(!continues);
}

#[test]
fn diffuse_scatter_leans_on_the_normal() {
    let lambertian = Lambertian::build_explicit(45875, 39321, 32768);
    let rec = record_at_origin(Vector3::build(0, FP_ONE, 0), true);
    let sample = Vector3::build(FP_ONE, 0, 0);
    let (continues, attenuation, scattered) = lambertian.scatter_with(&rec, &sample);
    assert!(continues);
    assert_eq!((attenuation.x(), attenuation.y(), attenuation.z()), (45875, 39321, 32768));
    let d = scattered.direction();
    assert_eq!((d.x(), d.y(), d.z()), (FP_ONE, FP_ONE, 0));
}

#[test]
fn degenerate_diffuse_direction_falls_back_to_normal() {
    // An offset that exactly cancels the normal would make a zero-length
    // direction; the bare normal is substituted.
    let lambertian = Lambertian::new();
    let rec = record_at_origin(Vector3::build(0, FP_ONE, 0), true);
    let cancelling = Vector3::build(0, -FP_ONE, 0);
    let (continues, _, scattered) = lambertian.scatter_with(&rec, &cancelling);
    assert!(continues);
    let d = scattered.direction();
    assert_eq!((d.x(), d.y(), d.z()), (0, FP_ONE, 0));
}

#[test]
fn dielectric_normal_incidence_passes_straight_through() {
    // Entering at normal incidence with matched indices: the direction
    // is unchanged, the ray always continues, and the attenuation is
    // fixed white no matter the stored albedo.
    let glass = Dialectric::build_explicit(16384, 16384, 16384, FP_ONE);
    let rec = record_at_origin(Vector3::build(0, 0, FP_ONE), true);
    let ray_in = Ray::build(&Vector3::build(0, 0, FP_ONE), &Vector3::build(0, 0, -FP_ONE));
    let (continues, attenuation, scattered) = glass.scatter(&ray_in, &rec);
    assert!(continues);
    assert_eq!((attenuation.x(), attenuation.y(), attenuation.z()), (FP_ONE, FP_ONE, FP_ONE));
    let d = scattered.direction();
    assert_eq!((d.x(), d.y(), d.z()), (0, 0, -FP_ONE));
}

#[test]
fn dielectric_total_internal_reflection() {
    // Exiting a dense medium at forty-five degrees with an index of two:
    // the refraction ratio times the sine exceeds one, so the ray
    // reflects instead of refracting.
    let glass = Dialectric::build_explicit(0, 0, 0, 2 * FP_ONE);
    let rec = record_at_origin(Vector3::build(0, FP_ONE, 0), false);
    let ray_in = Ray::build(&Vector3::build(0, 0, 0), &Vector3::build(46341, -46341, 0));
    let (continues, attenuation, scattered) = glass.scatter(&ray_in, &rec);
    assert!(continues);
    assert_eq!(attenuation.x(), FP_ONE);
    let d = scattered.direction();
    assert_eq!((d.x(), d.y(), d.z()), (46341, 46341, 0));
}
