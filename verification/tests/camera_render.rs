use std::rc::Rc;

use raytrace::common::fixed::FP_ONE;
use raytrace::common::mat3::Matrix3;
use raytrace::common::ray::Ray;
use raytrace::common::vec3::Vector3;
use raytrace::engine::camera::{ray_colour, sample_square, Camera};
use raytrace::materials::lambertian::Lambertian;
use raytrace::materials::{MatRc, MaterialKind};
use raytrace::primitive::hittable_list::HittableList;
use raytrace::primitive::sphere::Sphere;

fn single_pixel_camera() -> Camera {
    // One square pixel, ninety-degree field of view, looking down the
    // negative depth axis from the origin.
    Camera::build(
        FP_ONE,
        1,
        1,
        2,
        FP_ONE,
        Vector3::build(0, 0, 0),
        Vector3::build(0, 0, -FP_ONE),
        Vector3::build(0, FP_ONE, 0),
        0,
        0,
    )
}

fn grey_sphere_world() -> HittableList {
    let material: MatRc = Rc::new(MaterialKind::Lambertian(Lambertian::build_explicit(
        32768, 32768, 32768,
    )));
    HittableList::build(Sphere::build_explicit((0, 0, -FP_ONE), 32768, &material))
}

#[test]
fn initialize_derives_the_view_geometry() {
    let mut camera = single_pixel_camera();
    assert!(camera.initialize());
    assert_eq!(camera.image_height(), 1);
    let centre = camera.center();
    assert_eq!((centre.x(), centre.y(), centre.z()), (0, 0, 0));
    let basis: Matrix3 = camera.frame_basis();
    assert_eq!((basis.w().x(), basis.w().y(), basis.w().z()), (0, 0, FP_ONE));
    assert_eq!((basis.u().x(), basis.u().y(), basis.u().z()), (FP_ONE, 0, 0));
    assert_eq!((basis.v().x(), basis.v().y(), basis.v().z()), (0, FP_ONE, 0));
    let p00 = camera.pixel00_loc();
    assert_eq!((p00.x(), p00.y(), p00.z()), (0, 0, -FP_ONE));
    let pdw = camera.pixel_delta_width();
    assert_eq!((pdw.x(), pdw.y(), pdw.z()), (2 * FP_ONE, 0, 0));
    let pdh = camera.pixel_delta_height();
    assert_eq!((pdh.x(), pdh.y(), pdh.z()), (0, -2 * FP_ONE, 0));
    assert_eq!(camera.pixel_samples_scale(), FP_ONE);
}

#[test]
fn initialize_rejects_a_degenerate_view_direction() {
    let mut camera = Camera::build(
        FP_ONE,
        1,
        1,
        2,
        FP_ONE,
        Vector3::build(0, 0, 0),
        Vector3::build(0, 0, 0),
        Vector3::build(0, FP_ONE, 0),
        0,
        0,
    );
    assert!(!camera.initialize());
}

#[test]
fn initialize_rejects_an_up_direction_along_the_view() {
    let mut camera = Camera::build(
        FP_ONE,
        1,
        1,
        2,
        FP_ONE,
        Vector3::build(0, 0, 0),
        Vector3::build(0, 0, -FP_ONE),
        Vector3::build(0, 0, FP_ONE),
        0,
        0,
    );
    assert!(!camera.initialize());
}

#[test]
fn initialize_rejects_an_unrepresentable_viewport() {
    // A very wide field of view focused on a point at the far edge of
    // the camera range blows the viewport past the representable span,
    // and initialization refuses it.
    let mut camera = Camera::build(
        FP_ONE,
        1,
        1,
        2,
        8 * FP_ONE,
        Vector3::build(0, 0, 0),
        Vector3::build(0, 0, -0x2000_0000),
        Vector3::build(0, FP_ONE, 0),
        0,
        0,
    );
    assert!(!camera.initialize());
}

#[test]
fn centered_pinhole_ray() {
    let mut camera = single_pixel_camera();
    assert!(camera.initialize());
    let offset = Vector3::build(0, 0, 0);
    let ray = camera.ray_to_pixel_with(0, 0, &offset, (0, 0));
    let o = ray.origin();
    assert_eq!((o.x(), o.y(), o.z()), (0, 0, 0));
    let d = ray.direction();
    assert_eq!((d.x(), d.y(), d.z()), (0, 0, -FP_ONE));
}

#[test]
fn pixel_jitter_stays_within_half_a_pixel() {
    let mut k = 0;
    while k < 50 {
        let s = sample_square();
        assert!(-32768 <= s.x() && s.x() <= 32768);
        assert!(-32768 <= s.y() && s.y() <= 32768);
        assert_eq!(s.z(), 0);
        k += 1;
    }
}

#[test]
fn exhausted_bounce_budget_is_black() {
    let world = grey_sphere_world();
    let ray = Ray::build(&Vector3::build(0, 0, 0), &Vector3::build(0, 0, -FP_ONE));
    let c = ray_colour(&ray, 0, &world);
    assert_eq!((c.x(), c.y(), c.z()), (0, 0, 0));
}

#[test]
fn missing_everything_yields_the_background_gradient() {
    // A ray down the negative depth axis has a level unit direction, so
    // the blend factor is one half: (0.75, ~0.85, 1.0) in fixed point.
    let world = HittableList::new();
    let ray = Ray::build(&Vector3::build(0, 0, 0), &Vector3::build(0, 0, -FP_ONE));
    let c = ray_colour(&ray, 8, &world);
    assert_eq!((c.x(), c.y(), c.z()), (49152, 55705, FP_ONE));
}

#[test]
fn straight_up_background_is_pure_sky() {
    let world = HittableList::new();
    let ray = Ray::build(&Vector3::build(0, 0, 0), &Vector3::build(0, FP_ONE, 0));
    let c = ray_colour(&ray, 8, &world);
    // Blend factor one: exactly the sky tint.
    assert_eq!((c.x(), c.y(), c.z()), (32768, 45875, FP_ONE));
}

#[test]
fn one_bounce_budget_absorbs_a_diffuse_hit() {
    // With a budget of one, the diffuse bounce itself exhausts the
    // budget, so a ray that hits the sphere comes back black.
    let world = grey_sphere_world();
    let ray = Ray::build(&Vector3::build(0, 0, 0), &Vector3::build(0, 0, -FP_ONE));
    let c = ray_colour(&ray, 1, &world);
    assert_eq!((c.x(), c.y(), c.z()), (0, 0, 0));
}

#[test]
fn single_bounce_pixel_sits_between_background_and_black() {
    // The head-on sphere in front of an eleven-pixel-wide pinhole view,
    // one sample, bounce budget two: the centre pixel's primary ray
    // hits, the diffuse bounce escapes to the sky, and half of that
    // light survives.  The pixel is strictly darker than the background
    // and strictly brighter than black.
    let mut camera = Camera::build(
        FP_ONE,
        11,
        1,
        2,
        FP_ONE,
        Vector3::build(0, 0, 0),
        Vector3::build(0, 0, -FP_ONE),
        Vector3::build(0, FP_ONE, 0),
        0,
        0,
    );
    assert!(camera.initialize());
    assert_eq!(camera.image_height(), 11);
    let world = grey_sphere_world();
    let pixels = camera.render(&world);
    assert_eq!(pixels.len(), 121);
    let pixel = &pixels[5 * 11 + 5];
    let background = (49152, 55705, FP_ONE);
    assert!(0 < pixel.x() && pixel.x() < background.0);
    assert!(0 < pixel.y() && pixel.y() < background.1);
    assert!(0 < pixel.z() && pixel.z() < background.2);
}

#[test]
fn zero_bounce_budget_renders_all_black() {
    // With no bounce budget at all, every sample and so every pixel of
    // the image is black, whatever the scene holds.
    let mut camera = Camera::build(
        FP_ONE,
        3,
        2,
        0,
        FP_ONE,
        Vector3::build(0, 0, 0),
        Vector3::build(0, 0, -FP_ONE),
        Vector3::build(0, FP_ONE, 0),
        0,
        0,
    );
    assert!(camera.initialize());
    let world = grey_sphere_world();
    let pixels = camera.render(&world);
    assert_eq!(pixels.len(), 9);
    for pixel in pixels.iter() {
        assert_eq!((pixel.x(), pixel.y(), pixel.z()), (0, 0, 0));
    }
}

#[test]
fn render_produces_one_colour_per_pixel() {
    let mut camera = Camera::build(
        131072,
        6,
        2,
        3,
        FP_ONE,
        Vector3::build(0, 0, 0),
        Vector3::build(0, 0, -FP_ONE),
        Vector3::build(0, FP_ONE, 0),
        0,
        0,
    );
    assert!(camera.initialize());
    // Aspect ratio two: six pixels wide, three high.
    assert_eq!(camera.image_height(), 3);
    let world = grey_sphere_world();
    let pixels = camera.render(&world);
    assert_eq!(pixels.len(), 18);
    let row = camera.render_row(&world, 0);
    assert_eq!(row.len(), 6);
}

#[test]
fn defocus_ray_leaves_from_the_lens_disk() {
    // Depth of field enabled: the ray origin moves onto the defocus
    // disk and differs from the camera centre at the disk's edge.
    let mut camera = Camera::build(
        FP_ONE,
        1,
        1,
        2,
        FP_ONE,
        Vector3::build(0, 0, 0),
        Vector3::build(0, 0, -FP_ONE),
        Vector3::build(0, FP_ONE, 0),
        6554,
        FP_ONE,
    );
    assert!(camera.initialize());
    let offset = Vector3::build(0, 0, 0);
    let ray = camera.ray_to_pixel_with(0, 0, &offset, (FP_ONE, 0));
    let o = ray.origin();
    // The disk radius is focus distance times the half-angle tangent:
    // 0.1 of a unit along the right axis.
    assert_eq!((o.x(), o.y(), o.z()), (6554, 0, 0));
}
