//! The camera and the radiance integrator.
//!
//! The camera is built from its configuration and then initialized once,
//! computing the view basis, the viewport geometry and the per-pixel delta
//! vectors; rendering is only valid on an initialized camera.  The
//! integrator follows a ray through the scene until absorption, escape to
//! the background, or exhaustion of the bounce budget.

use vstd::prelude::*;

use crate::common::colour::Colour;
use crate::common::fixed::{
    abs_i, div_tz, fdiv, fmul, fsqrt, fx_div, fx_mul, lemma_div_tz_mag, lemma_fmul_mag, max_i,
    FP_ONE, FX_MUL_MAX,
};
use crate::common::interval::Interval;
use crate::common::mat3::Matrix3;
use crate::common::random::{sample, Distributions};
use crate::common::ray::{ray_wf, Ray};
use crate::common::vec3::{
    add_spec, cross_product, cross_spec, dot, in_range, lemma_fmul_mag_vec, mul_spec, neg_spec,
    scale_spec, sub_spec, unit_spec, unit_vector, Point3, Vector3, UNIT_MAX,
};
use crate::common::{RAY_MINIMUM_DISTANCE_BEFORE_HIT, RAY_T_MAX, WORLD_MAX};
use crate::materials::{scatter_rel, white, MaterialKind};
use crate::primitive::hittable_list::{list_hit_t, HittableList};
use crate::primitive::sphere::{sphere_record, Sphere};

verus! {

/// Largest magnitude of a camera coordinate (2^29): look-from, look-at and
/// up-direction components must leave room for the viewport geometry.
pub const CAMERA_COORD_MAX: i128 = 0x2000_0000;

/// Largest magnitude of the pixel-zero location (2^30), checked at
/// initialization.
pub const PIXEL00_MAX: i128 = 0x4000_0000;

/// Budget for one viewport axis (2^29): a pixel delta times the pixel
/// count stays inside it, checked at initialization.
pub const VIEWPORT_SPAN_MAX: i128 = 0x2000_0000;

/// Largest magnitude of a defocus-disk axis component (2^28), checked at
/// initialization.
pub const DEFOCUS_DISK_MAX: i128 = 0x1000_0000;

/// Largest magnitude of a colour channel anywhere in the integrator: the
/// background lerp can overshoot the unit range by rounding, but never
/// leaves eight units, and attenuation only shrinks a channel.
pub const COLOUR_ABS_MAX: i128 = 524288;

/// Half a unit.
pub const FP_HALF: i128 = 32768;

pub open spec fn black() -> Colour {
    Vector3 { x: 0, y: 0, z: 0 }
}

/// The sky tint of the background gradient.
pub open spec fn sky_blue() -> Colour {
    Vector3 { x: 32768, y: 45875, z: 65536 }
}

/// The background a ray that hits nothing resolves to: white blended
/// toward sky blue by half of one plus the unit direction's height.
pub open spec fn background_spec(ray: Ray) -> Colour {
    let ud = unit_spec(ray.direction);
    let a = fmul(FP_HALF as int, ud.y + FP_ONE);
    add_spec(scale_spec(white(), FP_ONE as int - a), scale_spec(sky_blue(), a))
}

/// The background gradient of a ray.
pub fn background(ray: &Ray) -> (r: Colour)
    requires
        ray_wf(*ray),
    ensures
        r == background_spec(*ray),
        in_range(r, COLOUR_ABS_MAX as int),
{
    let unit_direction = unit_vector(ray.direction());
    let a = fx_mul(FP_HALF, unit_direction.y() + FP_ONE);
    proof {
        lemma_fmul_mag(FP_HALF as int, unit_direction.y + FP_ONE, FP_HALF as int, 262144);
        lemma_fmul_mag_vec(white(), a as int, FP_ONE as int, 131072);
        lemma_fmul_mag_vec(white(), FP_ONE as int - a, FP_ONE as int, 196608);
        lemma_fmul_mag_vec(sky_blue(), a as int, FP_ONE as int, 131072);
    }
    let w = Colour::build(FP_ONE, FP_ONE, FP_ONE);
    let s = Colour::build(32768, 45875, 65536);
    w.scale(FP_ONE - a).add(&s.scale(a))
}

/// One scattering step at the hit `jt`: for some admissible unit sample
/// the material may have drawn, the scatter relation either absorbs the
/// ray, and the result is black, or continues it, and the result is the
/// material's attenuation times a bounded sub-radiance of the scattered
/// ray — a sub-radiance that is itself black when the remaining budget is
/// spent and exactly the background when the scattered ray hits nothing.
pub open spec fn scatter_step(objs: Seq<Sphere>, ray: Ray, depth: int, jt: (int, int), r: Colour) -> bool {
    exists|u: Vector3, out: (bool, Colour, Ray), sub: Colour|
        #![trigger scatter_rel(*objs[jt.0].material, ray, sphere_record(objs[jt.0], ray, jt.1), u, out), in_range(sub, COLOUR_ABS_MAX as int)]
        {
            &&& in_range(u, UNIT_MAX as int)
            &&& scatter_rel(
                *objs[jt.0].material,
                ray,
                sphere_record(objs[jt.0], ray, jt.1),
                u,
                out,
            )
            &&& out.0 ==> {
                &&& in_range(sub, COLOUR_ABS_MAX as int)
                &&& depth - 1 <= 0 ==> sub == black()
                &&& depth - 1 > 0 && list_hit_t(
                    objs,
                    out.2,
                    RAY_MINIMUM_DISTANCE_BEFORE_HIT as int,
                    RAY_T_MAX as int,
                ) is None ==> sub == background_spec(out.2)
                &&& r == mul_spec(out.1, sub)
            }
            &&& !out.0 ==> r == black()
        }
}

/// What the integrator may return for a ray against the given surfaces at
/// the given remaining bounce budget: black once the budget is exhausted,
/// the background gradient when nothing is hit, and one scattering step at
/// the nearest hit otherwise.
pub open spec fn radiance_outcome(objs: Seq<Sphere>, ray: Ray, depth: int, r: Colour) -> bool {
    &&& in_range(r, COLOUR_ABS_MAX as int)
    &&& depth <= 0 ==> r == black()
    &&& depth > 0 ==> (match list_hit_t(
        objs,
        ray,
        RAY_MINIMUM_DISTANCE_BEFORE_HIT as int,
        RAY_T_MAX as int,
    ) {
        None => r == background_spec(ray),
        Some(jt) => scatter_step(objs, ray, depth, jt, r),
    })
}

/// The recursive radiance integrator: black once the bounce budget is
/// exhausted, the background when nothing is hit, and otherwise the
/// scattered radiance attenuated by the surface, or black on absorption;
/// `radiance_outcome` captures the whole shape of the result.
pub fn ray_colour(ray: &Ray, depth_remaining: i32, world: &HittableList) -> (r: Colour)
    requires
        ray_wf(*ray),
        world.wf(),
        depth_remaining >= 0,
    ensures
        in_range(r, COLOUR_ABS_MAX as int),
        depth_remaining <= 0 ==> r == black(),
        depth_remaining > 0 && list_hit_t(
            world.objects@,
            *ray,
            RAY_MINIMUM_DISTANCE_BEFORE_HIT as int,
            RAY_T_MAX as int,
        ) is None ==> r == background_spec(*ray),
        radiance_outcome(world.objects@, *ray, depth_remaining as int, r),
    decreases depth_remaining,
{
    if depth_remaining <= 0 {
        return Colour::new();
    }

    let (hit_anything, hit_rec) = world.hit(
        ray,
        &Interval::build(RAY_MINIMUM_DISTANCE_BEFORE_HIT, RAY_T_MAX),
    );

    if hit_anything {
        let rec = match hit_rec {
            Some(rec) => rec,
            None => {
                proof {
                    assert(false);
                }
                return Colour::new();
            },
        };

        let mat = rec.material();
        let out = mat.scatter(ray, &rec);
        let (scattered, attenuation, scattered_ray) = out;
        let ghost objs = world.objects@;
        let ghost depth = depth_remaining as int;
        let ghost jt = list_hit_t(
            objs,
            *ray,
            RAY_MINIMUM_DISTANCE_BEFORE_HIT as int,
            RAY_T_MAX as int,
        ).unwrap();
        proof {
            assert(rec == sphere_record(objs[jt.0], *ray, jt.1));
            assert(*rec.material == *objs[jt.0].material);
        }

        if scattered {
            let bounce = ray_colour(&scattered_ray, depth_remaining - 1, world);
            proof {
                lemma_attenuate_keeps_range(attenuation, bounce);
            }
            let result = attenuation.mul(&bounce);
            proof {
                let u = choose|u: Vector3|
                    in_range(u, UNIT_MAX as int) && #[trigger] scatter_rel(
                        *mat,
                        *ray,
                        rec,
                        u,
                        out,
                    );
                assert(scatter_rel(
                    *objs[jt.0].material,
                    *ray,
                    sphere_record(objs[jt.0], *ray, jt.1),
                    u,
                    out,
                ));
                assert(in_range(bounce, COLOUR_ABS_MAX as int));
                assert(scatter_step(objs, *ray, depth, jt, result));
                assert(radiance_outcome(objs, *ray, depth, result));
            }
            return result;
        }

        proof {
            let u = choose|u: Vector3|
                in_range(u, UNIT_MAX as int) && #[trigger] scatter_rel(*mat, *ray, rec, u, out);
            assert(scatter_rel(
                *objs[jt.0].material,
                *ray,
                sphere_record(objs[jt.0], *ray, jt.1),
                u,
                out,
            ));
            assert(in_range(black(), COLOUR_ABS_MAX as int));
            assert(scatter_step(objs, *ray, depth, jt, black()));
            assert(radiance_outcome(objs, *ray, depth, black()));
        }
        return Colour::new();
    }

    background(ray)
}

/// Attenuating a bounded colour by a colour inside the unit range keeps
/// every channel inside the bound.
proof fn lemma_attenuate_keeps_range(attenuation: Colour, c: Colour)
    requires
        crate::common::colour::valid_colour(attenuation),
        in_range(c, COLOUR_ABS_MAX as int),
    ensures
        in_range(
            crate::common::vec3::mul_spec(attenuation, c),
            COLOUR_ABS_MAX as int,
        ),
{
    lemma_fmul_mag(attenuation.x as int, c.x as int, FP_ONE as int, COLOUR_ABS_MAX as int);
    lemma_fmul_mag(attenuation.y as int, c.y as int, FP_ONE as int, COLOUR_ABS_MAX as int);
    lemma_fmul_mag(attenuation.z as int, c.z as int, FP_ONE as int, COLOUR_ABS_MAX as int);
    crate::common::fixed::lemma_div_tz_exact(COLOUR_ABS_MAX as int, FP_ONE as int);
    assert(FP_ONE as int * (COLOUR_ABS_MAX as int) == (COLOUR_ABS_MAX as int) * (FP_ONE as int))
        by (nonlinear_arith);
}

/// A uniformly distributed offset within the half-unit square of a pixel:
/// the box filter the sampler reconstructs with.
pub fn sample_square() -> (r: Vector3)
    ensures
        -FP_HALF <= r.x <= FP_HALF,
        -FP_HALF <= r.y <= FP_HALF,
        r.z == 0,
{
    Vector3 {
        x: sample(Distributions::UniformIncl(-FP_HALF, FP_HALF)),
        y: sample(Distributions::UniformIncl(-FP_HALF, FP_HALF)),
        z: 0,
    }
}

/// A uniformly distributed point on the unit disk, by rejection from the
/// square; after the attempt budget the centre is used.
pub fn defocus_disk_sample() -> (r: (i128, i128))
    ensures
        -FP_ONE <= r.0 <= FP_ONE,
        -FP_ONE <= r.1 <= FP_ONE,
{
    let mut attempts: u32 = 0;
    while attempts < 64
        invariant
            true,
        decreases 64 - attempts,
    {
        let x = sample(Distributions::UniformIncl(-FP_ONE, FP_ONE));
        let y = sample(Distributions::UniformIncl(-FP_ONE, FP_ONE));
        if fx_mul(x, x) + fx_mul(y, y) < FP_ONE {
            return (x, y);
        }
        attempts = attempts + 1;
    }
    (0, 0)
}

/// The camera: configuration plus the state derived once at
/// initialization.  Because the scalar field is fixed point, the vertical
/// field of view and the defocus angle are configured as the tangents of
/// their half-angles, which an entry point computes from degrees.
pub struct Camera {
    // configurable attributes
    pub aspect_ratio: i128,
    pub image_width: i32,
    pub samples_per_pixel: i32,
    pub max_depth: i32,
    pub tan_half_fov: i128,
    pub lookfrom: Point3,
    pub lookat: Point3,
    pub vup: Vector3,
    pub tan_half_defocus_angle: i128,
    pub focus_dist: i128,
    // computed attributes
    pub image_height: Option<i32>,
    pub viewport_height: Option<i128>,
    pub pixel_samples_scale: Option<i128>,
    pub center: Option<Point3>,
    pub pixel00_loc: Option<Point3>,
    pub pixel_delta_width: Option<Vector3>,
    pub pixel_delta_height: Option<Vector3>,
    pub frame_basis: Option<Matrix3>,
    pub defocus_disk_u: Option<Vector3>,
    pub defocus_disk_v: Option<Vector3>,
    pub initialized: bool,
}

/// Configuration inside the ranges the fixed-point camera arithmetic
/// covers.
pub open spec fn cam_config_wf(c: Camera) -> bool {
    &&& FP_ONE as int / 8 <= c.aspect_ratio <= 8 * FP_ONE as int
    &&& 1 <= c.image_width <= 4096
    &&& 1 <= c.samples_per_pixel <= 65536
    &&& 0 <= c.max_depth <= 65536
    &&& 0 < c.tan_half_fov <= 8 * FP_ONE as int
    &&& in_range(c.lookfrom, CAMERA_COORD_MAX as int)
    &&& in_range(c.lookat, CAMERA_COORD_MAX as int)
    &&& in_range(c.vup, CAMERA_COORD_MAX as int)
    &&& 0 <= c.tan_half_defocus_angle <= FP_ONE
    &&& 0 <= c.focus_dist <= CAMERA_COORD_MAX
}

/// Image height before the floor of one: width over aspect ratio.
#[verifier::opaque]
pub open spec fn cam_projected_height(c: Camera) -> int {
    div_tz(fdiv(c.image_width as int * FP_ONE as int, c.aspect_ratio as int), FP_ONE as int)
}

#[verifier::opaque]
pub open spec fn cam_image_height(c: Camera) -> int {
    max_i(1, cam_projected_height(c))
}

#[verifier::opaque]
pub open spec fn cam_pixel_samples_scale(c: Camera) -> int {
    fdiv(FP_ONE as int, c.samples_per_pixel as int * FP_ONE as int)
}

#[verifier::opaque]
pub open spec fn cam_focal_length(c: Camera) -> int {
    fsqrt(dot(sub_spec(c.lookat, c.lookfrom), sub_spec(c.lookat, c.lookfrom)))
}

/// The distance to the plane in exact focus: the explicit focus distance
/// when depth of field is enabled, otherwise the look-at distance.
#[verifier::opaque]
pub open spec fn cam_focus(c: Camera) -> int {
    if c.tan_half_defocus_angle > 0 && c.focus_dist > 0 {
        c.focus_dist as int
    } else {
        cam_focal_length(c)
    }
}

#[verifier::opaque]
pub open spec fn cam_viewport_height(c: Camera) -> int {
    fmul(2 * c.tan_half_fov as int, cam_focus(c))
}

#[verifier::opaque]
pub open spec fn cam_viewport_width(c: Camera) -> int {
    fmul(
        cam_viewport_height(c),
        fdiv(c.image_width as int * FP_ONE as int, cam_image_height(c) * FP_ONE as int),
    )
}

/// The forward axis of the view basis.
#[verifier::opaque]
pub open spec fn cam_w(c: Camera) -> Vector3 {
    unit_spec(sub_spec(c.lookfrom, c.lookat))
}

/// The right axis of the view basis.
#[verifier::opaque]
pub open spec fn cam_u(c: Camera) -> Vector3 {
    unit_spec(cross_spec(c.vup, cam_w(c)))
}

/// The true-up axis of the view basis.
#[verifier::opaque]
pub open spec fn cam_v(c: Camera) -> Vector3 {
    cross_spec(cam_w(c), cam_u(c))
}

#[verifier::opaque]
pub open spec fn cam_viewport_width_vector(c: Camera) -> Vector3 {
    scale_spec(cam_u(c), cam_viewport_width(c))
}

#[verifier::opaque]
pub open spec fn cam_viewport_height_vector(c: Camera) -> Vector3 {
    scale_spec(neg_spec(cam_v(c)), cam_viewport_height(c))
}

#[verifier::opaque]
pub open spec fn cam_pixel_delta_width(c: Camera) -> Vector3 {
    crate::common::vec3::div_spec(cam_viewport_width_vector(c), c.image_width as int * FP_ONE as int)
}

#[verifier::opaque]
pub open spec fn cam_pixel_delta_height(c: Camera) -> Vector3 {
    crate::common::vec3::div_spec(cam_viewport_height_vector(c), cam_image_height(c) * FP_ONE as int)
}

#[verifier::opaque]
pub open spec fn cam_pixel00_loc(c: Camera) -> Vector3 {
    let upper_left = sub_spec(
        sub_spec(
            sub_spec(c.lookfrom, scale_spec(cam_w(c), cam_focus(c))),
            crate::common::vec3::div_spec(cam_viewport_width_vector(c), 2 * FP_ONE as int),
        ),
        crate::common::vec3::div_spec(cam_viewport_height_vector(c), 2 * FP_ONE as int),
    );
    add_spec(
        upper_left,
        scale_spec(add_spec(cam_pixel_delta_width(c), cam_pixel_delta_height(c)), FP_HALF as int),
    )
}

#[verifier::opaque]
pub open spec fn cam_defocus_radius(c: Camera) -> int {
    fmul(cam_focus(c), c.tan_half_defocus_angle as int)
}

#[verifier::opaque]
pub open spec fn cam_defocus_disk_u(c: Camera) -> Vector3 {
    scale_spec(cam_u(c), cam_defocus_radius(c))
}

#[verifier::opaque]
pub open spec fn cam_defocus_disk_v(c: Camera) -> Vector3 {
    scale_spec(cam_v(c), cam_defocus_radius(c))
}

/// The per-axis bound a pixel delta must satisfy so that any point on the
/// viewport stays representable.
pub open spec fn cam_delta_limit(count: int) -> int {
    VIEWPORT_SPAN_MAX as int / (count + 1)
}

/// Whether initialization succeeds: the view direction and the camera
/// basis are non-degenerate, and every derived quantity passes its range
/// check.
pub open spec fn cam_ok(c: Camera) -> bool {
    &&& dot(sub_spec(c.lookfrom, c.lookat), sub_spec(c.lookfrom, c.lookat)) != 0
    &&& dot(cross_spec(c.vup, cam_w(c)), cross_spec(c.vup, cam_w(c))) != 0
    &&& in_range(cam_pixel00_loc(c), PIXEL00_MAX as int)
    &&& in_range(cam_pixel_delta_width(c), cam_delta_limit(c.image_width as int))
    &&& in_range(cam_pixel_delta_height(c), cam_delta_limit(cam_image_height(c)))
    &&& in_range(cam_defocus_disk_u(c), DEFOCUS_DISK_MAX as int)
    &&& in_range(cam_defocus_disk_v(c), DEFOCUS_DISK_MAX as int)
}

/// A camera on which rendering is valid: the configuration is sane, the
/// checks passed, and every derived field holds its derived value.
pub open spec fn cam_ready(c: Camera) -> bool {
    &&& cam_config_wf(c)
    &&& cam_ok(c)
    &&& c.initialized
    &&& c.image_height == Some(cam_image_height(c) as i32)
    &&& 1 <= cam_image_height(c) <= 32768
    &&& c.viewport_height == Some(cam_viewport_height(c) as i128)
    &&& c.pixel_samples_scale == Some(cam_pixel_samples_scale(c) as i128)
    &&& 0 <= cam_pixel_samples_scale(c) <= FP_ONE
    &&& cam_pixel_samples_scale(c) * c.samples_per_pixel as int <= FP_ONE as int
    &&& c.center == Some(c.lookfrom)
    &&& c.pixel00_loc == Some(cam_pixel00_loc(c))
    &&& c.pixel_delta_width == Some(cam_pixel_delta_width(c))
    &&& c.pixel_delta_height == Some(cam_pixel_delta_height(c))
    &&& c.frame_basis == Some(Matrix3 { u: cam_u(c), v: cam_v(c), w: cam_w(c) })
    &&& c.defocus_disk_u == Some(cam_defocus_disk_u(c))
    &&& c.defocus_disk_v == Some(cam_defocus_disk_v(c))
}

impl Camera {
    /// The default camera: a square pinhole view of the negative depth
    /// axis with a ninety-degree vertical field of view.
    pub fn new() -> (r: Camera)
        ensures
            cam_config_wf(r),
            !r.initialized,
            r.image_height is None,
            r.viewport_height is None,
            r.pixel_samples_scale is None,
            r.center is None,
            r.pixel00_loc is None,
            r.pixel_delta_width is None,
            r.pixel_delta_height is None,
            r.frame_basis is None,
            r.defocus_disk_u is None,
            r.defocus_disk_v is None,
            r.aspect_ratio == FP_ONE,
            r.image_width == 100,
            r.samples_per_pixel == 10,
            r.max_depth == 10,
            r.tan_half_fov == FP_ONE,
            r.lookfrom == (Vector3 { x: 0, y: 0, z: 0 }),
            r.lookat == (Vector3 { x: 0, y: 0, z: -65536i128 }),
            r.vup == (Vector3 { x: 0, y: -65536i128, z: 0 }),
            r.tan_half_defocus_angle == 0,
            r.focus_dist == 0,
    {
        Camera {
            aspect_ratio: FP_ONE,
            image_width: 100,
            samples_per_pixel: 10,
            max_depth: 10,
            tan_half_fov: FP_ONE,
            lookfrom: Point3::build(0, 0, 0),
            lookat: Point3::build(0, 0, -FP_ONE),
            vup: Vector3::build(0, -FP_ONE, 0),
            tan_half_defocus_angle: 0,
            focus_dist: 0,
            image_height: None,
            viewport_height: None,
            pixel_samples_scale: None,
            center: None,
            pixel00_loc: None,
            pixel_delta_width: None,
            pixel_delta_height: None,
            frame_basis: None,
            defocus_disk_u: None,
            defocus_disk_v: None,
            initialized: false,
        }
    }

    /// A camera from its full configuration, not yet initialized.
    pub fn build(
        aspect_ratio: i128,
        image_width: i32,
        samples_per_pixel: i32,
        max_depth: i32,
        tan_half_fov: i128,
        lookfrom: Point3,
        lookat: Point3,
        vup: Vector3,
        tan_half_defocus_angle: i128,
        focus_dist: i128,
    ) -> (r: Camera)
        requires
            FP_ONE as int / 8 <= aspect_ratio <= 8 * FP_ONE as int,
            1 <= image_width <= 4096,
            1 <= samples_per_pixel <= 65536,
            0 <= max_depth <= 65536,
            0 < tan_half_fov <= 8 * FP_ONE as int,
            in_range(lookfrom, CAMERA_COORD_MAX as int),
            in_range(lookat, CAMERA_COORD_MAX as int),
            in_range(vup, CAMERA_COORD_MAX as int),
            0 <= tan_half_defocus_angle <= FP_ONE,
            0 <= focus_dist <= CAMERA_COORD_MAX,
        ensures
            cam_config_wf(r),
            !r.initialized,
            r.image_height is None,
            r.viewport_height is None,
            r.pixel_samples_scale is None,
            r.center is None,
            r.pixel00_loc is None,
            r.pixel_delta_width is None,
            r.pixel_delta_height is None,
            r.frame_basis is None,
            r.defocus_disk_u is None,
            r.defocus_disk_v is None,
            r.aspect_ratio == aspect_ratio,
            r.image_width == image_width,
            r.samples_per_pixel == samples_per_pixel,
            r.max_depth == max_depth,
            r.tan_half_fov == tan_half_fov,
            r.lookfrom == lookfrom,
            r.lookat == lookat,
            r.vup == vup,
            r.tan_half_defocus_angle == tan_half_defocus_angle,
            r.focus_dist == focus_dist,
    {
        Camera {
            aspect_ratio,
            image_width,
            samples_per_pixel,
            max_depth,
            tan_half_fov,
            lookfrom,
            lookat,
            vup,
            tan_half_defocus_angle,
            focus_dist,
            image_height: None,
            viewport_height: None,
            pixel_samples_scale: None,
            center: None,
            pixel00_loc: None,
            pixel_delta_width: None,
            pixel_delta_height: None,
            frame_basis: None,
            defocus_disk_u: None,
            defocus_disk_v: None,
            initialized: false,
        }
    }

    /// Derives the view geometry from the configuration.  Succeeds exactly
    /// when the view direction and the camera basis are non-degenerate and
    /// every derived quantity passes its range check; on success the
    /// camera is ready to render.
    #[verifier::rlimit(100)]
    /// The image height and per-sample scale derived from the
    /// configuration.
    fn derive_height_scale(&self) -> (r: (i32, i128))
        requires
            cam_config_wf(*self),
        ensures
            r.0 as int == cam_image_height(*self),
            1 <= r.0 <= 32768,
            r.1 as int == cam_pixel_samples_scale(*self),
            0 <= r.1 <= FP_ONE,
            r.1 as int * self.samples_per_pixel as int <= FP_ONE as int,
    {
        let one: i128 = FP_ONE;
        let wide: i128 = (self.image_width as i128) * one;
        let projected: i128 = fx_div(wide, self.aspect_ratio);
        proof {
            lemma_div_tz_mag(wide * (FP_ONE as int), self.aspect_ratio as int);
            vstd::arithmetic::div_mod::lemma_div_pos_is_pos(
                wide * (FP_ONE as int),
                self.aspect_ratio as int,
            );
            vstd::arithmetic::div_mod::lemma_div_is_ordered_by_denominator(
                wide * (FP_ONE as int),
                8192,
                self.aspect_ratio as int,
            );
            vstd::arithmetic::div_mod::lemma_div_multiples_vanish(
                8 * self.image_width as int * (FP_ONE as int),
                8192,
            );
            assert(wide * (FP_ONE as int) == 8192 * (8 * self.image_width as int * (FP_ONE
                as int))) by (nonlinear_arith)
                requires
                    wide == self.image_width as int * 65536,
            ;
        }
        let count: i128 = ((projected as u128) / 65536) as i128;
        proof {
            vstd::arithmetic::div_mod::lemma_div_pos_is_pos(projected as int, FP_ONE as int);
            vstd::arithmetic::div_mod::lemma_div_is_ordered(
                projected as int,
                8 * self.image_width as int * (FP_ONE as int),
                FP_ONE as int,
            );
            vstd::arithmetic::div_mod::lemma_div_multiples_vanish(
                8 * self.image_width as int,
                FP_ONE as int,
            );
            assert(8 * self.image_width as int * (FP_ONE as int) == (FP_ONE as int) * (8
                * self.image_width as int)) by (nonlinear_arith);
            assert(count == div_tz(projected as int, FP_ONE as int));
            assert(count == cam_projected_height(*self)) by {
                reveal(cam_projected_height);
            }
        }
        let projected_height: i32 = if count < 1 {
            1
        } else {
            count as i32
        };
        proof {
            assert(projected_height as int == cam_image_height(*self)) by {
                reveal(cam_image_height);
            }
        }
        let samples_scale: i128 = fx_div(one, (self.samples_per_pixel as i128) * one);
        proof {
            lemma_div_tz_mag(
                (FP_ONE as int) * (FP_ONE as int),
                self.samples_per_pixel as int * (FP_ONE as int),
            );
            vstd::arithmetic::div_mod::lemma_div_is_ordered_by_denominator(
                (FP_ONE as int) * (FP_ONE as int),
                FP_ONE as int,
                self.samples_per_pixel as int * (FP_ONE as int),
            );
            vstd::arithmetic::div_mod::lemma_div_multiples_vanish(FP_ONE as int, FP_ONE as int);
            vstd::arithmetic::div_mod::lemma_div_pos_is_pos(
                (FP_ONE as int) * (FP_ONE as int),
                self.samples_per_pixel as int * (FP_ONE as int),
            );
            assert(samples_scale as int == cam_pixel_samples_scale(*self)) by {
                reveal(cam_pixel_samples_scale);
            }
            vstd::arithmetic::div_mod::lemma_fundamental_div_mod(
                (FP_ONE as int) * (FP_ONE as int),
                self.samples_per_pixel as int * (FP_ONE as int),
            );
            vstd::arithmetic::div_mod::lemma_remainder_lower(
                (FP_ONE as int) * (FP_ONE as int),
                self.samples_per_pixel as int * (FP_ONE as int),
            );
            assert(samples_scale as int * self.samples_per_pixel as int <= FP_ONE as int)
                by (nonlinear_arith)
                requires
                    (FP_ONE as int) * (FP_ONE as int) == (self.samples_per_pixel as int * (FP_ONE
                        as int)) * (samples_scale as int) + ((FP_ONE as int) * (FP_ONE as int)) % (
                    self.samples_per_pixel as int * (FP_ONE as int)),
                    0 <= ((FP_ONE as int) * (FP_ONE as int)) % (self.samples_per_pixel as int * (
                    FP_ONE as int)),
                    1 <= self.samples_per_pixel as int,
                    0 <= samples_scale as int,
            ;
        }
        (projected_height, samples_scale)
    }

    /// The orthonormal view basis and the focus distance, or nothing when
    /// the view direction or the basis is degenerate.
    fn derive_basis_focus(&self) -> (r: Option<(Matrix3, i128)>)
        requires
            cam_config_wf(*self),
        ensures
            (r is Some) == (dot(sub_spec(self.lookfrom, self.lookat), sub_spec(self.lookfrom, self.lookat)) != 0
                && dot(cross_spec(self.vup, cam_w(*self)), cross_spec(self.vup, cam_w(*self))) != 0),
            r matches Some(bf) ==> {
                &&& bf.0.u == cam_u(*self)
                &&& bf.0.v == cam_v(*self)
                &&& bf.0.w == cam_w(*self)
                &&& in_range(bf.0.u, UNIT_MAX as int)
                &&& in_range(bf.0.v, 1179648)
                &&& in_range(bf.0.w, UNIT_MAX as int)
                &&& bf.1 as int == cam_focus(*self)
                &&& 0 <= bf.1 <= 0x8000_0000
            },
    {
        let w_vec = self.lookfrom.sub(&self.lookat);
        let look_sub = self.lookat.sub(&self.lookfrom);
        proof {
            crate::common::vec3::lemma_fmul_mag_vec3_dot(
                look_sub,
                look_sub,
                0x4000_0000,
                0x4000_0000,
            );
            crate::common::vec3::lemma_fmul_mag_vec3_dot(w_vec, w_vec, 0x4000_0000, 0x4000_0000);
            crate::common::vec3::lemma_fmul_square_nonneg(look_sub.x as int);
            crate::common::vec3::lemma_fmul_square_nonneg(look_sub.y as int);
            crate::common::vec3::lemma_fmul_square_nonneg(look_sub.z as int);
        }
        let w_ls = w_vec.length_squared();
        if w_ls == 0 {
            return None;
        }
        let focal_length = crate::common::fixed::fx_sqrt(look_sub.length_squared());
        proof {
            assert(focal_length <= 0x8000_0000) by (nonlinear_arith)
                requires
                    focal_length >= 0,
                    focal_length * focal_length <= 0x3000_0000_0000_0000,
            ;
        }
        let focus: i128 = if self.tan_half_defocus_angle > 0 && self.focus_dist > 0 {
            self.focus_dist
        } else {
            focal_length
        };
        proof {
            assert(focal_length as int == cam_focal_length(*self)) by {
                reveal(cam_focal_length);
            }
            assert(focus as int == cam_focus(*self)) by {
                reveal(cam_focus);
            }
        }
        let w = unit_vector(&w_vec);
        proof {
            assert(w == cam_w(*self)) by {
                reveal(cam_w);
            }
            crate::common::vec3::lemma_cross_mag(
                self.vup,
                w,
                CAMERA_COORD_MAX as int,
                UNIT_MAX as int,
            );
        }
        let cross_up = cross_product(&self.vup, &w);
        let u_ls = cross_up.length_squared();
        if u_ls == 0 {
            return None;
        }
        let u = unit_vector(&cross_up);
        proof {
            crate::common::vec3::lemma_cross_mag(w, u, UNIT_MAX as int, UNIT_MAX as int);
        }
        let v = cross_product(&w, &u);
        proof {
            assert(u == cam_u(*self)) by {
                reveal(cam_u);
            }
            assert(v == cam_v(*self)) by {
                reveal(cam_v);
            }
        }
        Some((Matrix3::build(&u, &v, &w), focus))
    }

    /// The viewport geometry: the viewport height, the two per-pixel delta
    /// vectors, the location of pixel zero and the defocus-disk axes.
    #[verifier::rlimit(100)]
    fn derive_viewport(&self, height: i32, basis: &Matrix3, focus: i128) -> (r: (
        i128,
        Vector3,
        Vector3,
        Vector3,
        (Vector3, Vector3),
    ))
        requires
            cam_config_wf(*self),
            height as int == cam_image_height(*self),
            1 <= height <= 32768,
            basis.u == cam_u(*self),
            basis.v == cam_v(*self),
            basis.w == cam_w(*self),
            in_range(basis.u, UNIT_MAX as int),
            in_range(basis.v, 1179648),
            in_range(basis.w, UNIT_MAX as int),
            focus as int == cam_focus(*self),
            0 <= focus <= 0x8000_0000,
        ensures
            r.0 as int == cam_viewport_height(*self),
            r.1 == cam_pixel_delta_width(*self),
            r.2 == cam_pixel_delta_height(*self),
            r.3 == cam_pixel00_loc(*self),
            r.4.0 == cam_defocus_disk_u(*self),
            r.4.1 == cam_defocus_disk_v(*self),
    {
        let one: i128 = FP_ONE;
        let wide: i128 = (self.image_width as i128) * one;
        let height_fx: i128 = (height as i128) * one;
        let u = basis.u;
        let v = basis.v;
        let w = basis.w;

        let viewport_height = fx_mul(2 * self.tan_half_fov, focus);
        let ratio = fx_div(wide, height_fx);
        proof {
            lemma_fmul_mag(2 * self.tan_half_fov as int, focus as int, 0x10_0000, 0x8000_0000);
            lemma_div_tz_mag(wide * (FP_ONE as int), height_fx as int);
            vstd::arithmetic::div_mod::lemma_div_is_ordered_by_denominator(
                wide * (FP_ONE as int),
                FP_ONE as int,
                height_fx as int,
            );
            vstd::arithmetic::div_mod::lemma_div_multiples_vanish(wide as int, FP_ONE as int);
            assert(wide * (FP_ONE as int) == (FP_ONE as int) * wide) by (nonlinear_arith);
        }
        let viewport_width = fx_mul(viewport_height, ratio);
        proof {
            lemma_fmul_mag(viewport_height as int, ratio as int, 0x8_0000_0000, 0x1000_0000);
            assert(viewport_height as int == cam_viewport_height(*self)) by {
                reveal(cam_viewport_height);
            }
            assert(viewport_width as int == cam_viewport_width(*self)) by {
                reveal(cam_viewport_width);
            }
        }

        proof {
            lemma_fmul_mag_vec(u, viewport_width as int, UNIT_MAX as int, 0x8000_0000_0000);
            lemma_fmul_mag_vec(neg_spec(v), viewport_height as int, 1179648, 0x8_0000_0000);
            assert(1179648int * 0x8_0000_0000int / (FP_ONE as int) == 0x90_0000_0000int);
        }
        let viewport_width_vector = u.scale(viewport_width);
        let viewport_height_vector = v.neg().scale(viewport_height);
        let pixel_delta_width = viewport_width_vector.div(wide);
        let pixel_delta_height = viewport_height_vector.div(height_fx);
        proof {
            assert(viewport_width_vector == cam_viewport_width_vector(*self)) by {
                reveal(cam_viewport_width_vector);
            }
            assert(viewport_height_vector == cam_viewport_height_vector(*self)) by {
                reveal(cam_viewport_height_vector);
            }
            assert(pixel_delta_width == cam_pixel_delta_width(*self)) by {
                reveal(cam_pixel_delta_width);
            }
            assert(pixel_delta_height == cam_pixel_delta_height(*self)) by {
                reveal(cam_pixel_delta_height);
            }
        }

        proof {
            lemma_fmul_mag_vec(w, focus as int, UNIT_MAX as int, 0x8000_0000);
            lemma_div_vec_mag(viewport_width_vector, wide as int, 0x1_8000_0000_0000);
            lemma_div_vec_mag(viewport_height_vector, height_fx as int, 0x90_0000_0000);
            lemma_div_vec_mag(viewport_width_vector, 2 * FP_ONE as int, 0x1_8000_0000_0000);
            lemma_div_vec_mag(viewport_height_vector, 2 * FP_ONE as int, 0x90_0000_0000);
        }
        let w_scaled = w.scale(focus);
        let viewport_upper_left = self
            .lookfrom
            .sub(&w_scaled)
            .sub(&viewport_width_vector.div(2 * one))
            .sub(&viewport_height_vector.div(2 * one));
        let delta_sum = pixel_delta_width.add(&pixel_delta_height);
        proof {
            lemma_fmul_mag_vec(delta_sum, FP_HALF as int, 0x3_0000_0000_0000, FP_HALF as int);
        }
        let pixel00_loc = viewport_upper_left.add(&delta_sum.scale(FP_HALF));
        proof {
            assert(pixel00_loc == cam_pixel00_loc(*self)) by {
                reveal(cam_pixel00_loc);
            }
        }

        let defocus_radius = fx_mul(focus, self.tan_half_defocus_angle);
        proof {
            lemma_fmul_mag(
                focus as int,
                self.tan_half_defocus_angle as int,
                0x8000_0000,
                FP_ONE as int,
            );
            lemma_fmul_mag_vec(u, defocus_radius as int, UNIT_MAX as int, 0x8000_0000);
            lemma_fmul_mag_vec(v, defocus_radius as int, 1179648, 0x8000_0000);
        }
        let defocus_disk_u = u.scale(defocus_radius);
        let defocus_disk_v = v.scale(defocus_radius);
        proof {
            assert(defocus_radius as int == cam_defocus_radius(*self)) by {
                reveal(cam_defocus_radius);
            }
            assert(defocus_disk_u == cam_defocus_disk_u(*self)) by {
                reveal(cam_defocus_disk_u);
            }
            assert(defocus_disk_v == cam_defocus_disk_v(*self)) by {
                reveal(cam_defocus_disk_v);
            }
        }

        (
            viewport_height,
            pixel_delta_width,
            pixel_delta_height,
            pixel00_loc,
            (defocus_disk_u, defocus_disk_v),
        )
    }

    /// Derives the view geometry from the configuration.  Succeeds exactly
    /// when the view direction and the camera basis are non-degenerate and
    /// every derived quantity passes its range check; on success the
    /// camera is ready to render.
    pub fn initialize(&mut self) -> (ok: bool)
        requires
            cam_config_wf(*old(self)),
        ensures
            final(self).aspect_ratio == old(self).aspect_ratio,
            final(self).image_width == old(self).image_width,
            final(self).samples_per_pixel == old(self).samples_per_pixel,
            final(self).max_depth == old(self).max_depth,
            final(self).tan_half_fov == old(self).tan_half_fov,
            final(self).lookfrom == old(self).lookfrom,
            final(self).lookat == old(self).lookat,
            final(self).vup == old(self).vup,
            final(self).tan_half_defocus_angle == old(self).tan_half_defocus_angle,
            final(self).focus_dist == old(self).focus_dist,
            final(self).initialized == ok,
            ok == cam_ok(*old(self)),
            ok ==> cam_ready(*final(self)),
    {
        let (projected_height, samples_scale) = self.derive_height_scale();
        let basis_focus = self.derive_basis_focus();
        let (basis, focus) = match basis_focus {
            Some(bf) => bf,
            None => {
                self.initialized = false;
                return false;
            },
        };
        let (viewport_height, pixel_delta_width, pixel_delta_height, pixel00_loc, disks) = self
            .derive_viewport(projected_height, &basis, focus);
        let (defocus_disk_u, defocus_disk_v) = disks;

        // Range checks: anything a ray can reach must stay representable.
        if pixel00_loc.x > PIXEL00_MAX || pixel00_loc.x < -PIXEL00_MAX || pixel00_loc.y
            > PIXEL00_MAX || pixel00_loc.y < -PIXEL00_MAX || pixel00_loc.z > PIXEL00_MAX
            || pixel00_loc.z < -PIXEL00_MAX {
            self.initialized = false;
            return false;
        }
        let lim_w: i128 = ((VIEWPORT_SPAN_MAX as u128) / ((self.image_width + 1) as u128)) as i128;
        if pixel_delta_width.x > lim_w || pixel_delta_width.x < -lim_w || pixel_delta_width.y
            > lim_w || pixel_delta_width.y < -lim_w || pixel_delta_width.z > lim_w
            || pixel_delta_width.z < -lim_w {
            self.initialized = false;
            return false;
        }
        let lim_h: i128 = ((VIEWPORT_SPAN_MAX as u128) / ((projected_height + 1) as u128)) as i128;
        if pixel_delta_height.x > lim_h || pixel_delta_height.x < -lim_h || pixel_delta_height.y
            > lim_h || pixel_delta_height.y < -lim_h || pixel_delta_height.z > lim_h
            || pixel_delta_height.z < -lim_h {
            self.initialized = false;
            return false;
        }
        if defocus_disk_u.x > DEFOCUS_DISK_MAX || defocus_disk_u.x < -DEFOCUS_DISK_MAX
            || defocus_disk_u.y > DEFOCUS_DISK_MAX || defocus_disk_u.y < -DEFOCUS_DISK_MAX
            || defocus_disk_u.z > DEFOCUS_DISK_MAX || defocus_disk_u.z < -DEFOCUS_DISK_MAX {
            self.initialized = false;
            return false;
        }
        if defocus_disk_v.x > DEFOCUS_DISK_MAX || defocus_disk_v.x < -DEFOCUS_DISK_MAX
            || defocus_disk_v.y > DEFOCUS_DISK_MAX || defocus_disk_v.y < -DEFOCUS_DISK_MAX
            || defocus_disk_v.z > DEFOCUS_DISK_MAX || defocus_disk_v.z < -DEFOCUS_DISK_MAX {
            self.initialized = false;
            return false;
        }

        self.image_height = Some(projected_height);
        self.viewport_height = Some(viewport_height);
        self.pixel_samples_scale = Some(samples_scale);
        self.center = Some(self.lookfrom);
        self.pixel00_loc = Some(pixel00_loc);
        self.pixel_delta_width = Some(pixel_delta_width);
        self.pixel_delta_height = Some(pixel_delta_height);
        self.frame_basis = Some(basis);
        self.defocus_disk_u = Some(defocus_disk_u);
        self.defocus_disk_v = Some(defocus_disk_v);
        self.initialized = true;
        proof {
            lemma_cam_config_eq(*self, *old(self));
        }
        true
    }

    /// The derived image height; asking before initialization is a
    /// programming error and is excluded outright.
    pub fn image_height(&self) -> (r: i32)
        requires
            self.image_height is Some,
        ensures
            r == self.image_height.unwrap(),
    {
        match &self.image_height {
            Some(h) => *h,
            None => 0,
        }
    }

    pub fn pixel_samples_scale(&self) -> (r: i128)
        requires
            self.pixel_samples_scale is Some,
        ensures
            r == self.pixel_samples_scale.unwrap(),
    {
        match &self.pixel_samples_scale {
            Some(v) => *v,
            None => 0,
        }
    }

    pub fn center(&self) -> (r: Point3)
        requires
            self.center is Some,
        ensures
            r == self.center.unwrap(),
    {
        match &self.center {
            Some(v) => *v,
            None => Point3 { x: 0, y: 0, z: 0 },
        }
    }

    pub fn pixel00_loc(&self) -> (r: Point3)
        requires
            self.pixel00_loc is Some,
        ensures
            r == self.pixel00_loc.unwrap(),
    {
        match &self.pixel00_loc {
            Some(v) => *v,
            None => Point3 { x: 0, y: 0, z: 0 },
        }
    }

    pub fn pixel_delta_width(&self) -> (r: Vector3)
        requires
            self.pixel_delta_width is Some,
        ensures
            r == self.pixel_delta_width.unwrap(),
    {
        match &self.pixel_delta_width {
            Some(v) => *v,
            None => Vector3 { x: 0, y: 0, z: 0 },
        }
    }

    pub fn pixel_delta_height(&self) -> (r: Vector3)
        requires
            self.pixel_delta_height is Some,
        ensures
            r == self.pixel_delta_height.unwrap(),
    {
        match &self.pixel_delta_height {
            Some(v) => *v,
            None => Vector3 { x: 0, y: 0, z: 0 },
        }
    }

    pub fn frame_basis(&self) -> (r: Matrix3)
        requires
            self.frame_basis is Some,
        ensures
            r == self.frame_basis.unwrap(),
    {
        match &self.frame_basis {
            Some(v) => *v,
            None => Matrix3 {
                u: Vector3 { x: 0, y: 0, z: 0 },
                v: Vector3 { x: 0, y: 0, z: 0 },
                w: Vector3 { x: 0, y: 0, z: 0 },
            },
        }
    }

    /// The ray through the sample point of pixel `(x, y)`, with the pixel
    /// jitter and the defocus-disk point supplied by the caller: the
    /// origin sits at the camera centre or on the defocus disk, and the
    /// direction runs from the origin to the jittered sample location.
    /// The jittered sample location of pixel `(x, y)` on the viewport.
    #[verifier::rlimit(100)]
    fn pixel_sample_at(&self, x: i32, y: i32, offset: &Vector3) -> (ps: Point3)
        requires
            cam_ready(*self),
            0 <= x <= self.image_width,
            0 <= y as int <= cam_image_height(*self),
            -FP_HALF <= offset.x <= FP_HALF,
            -FP_HALF <= offset.y <= FP_HALF,
        ensures
            ps == cam_pixel_sample(*self, x as int, y as int, *offset),
            in_range(ps, 0x8000_0000),
    {
        let p00 = self.pixel00_loc();
        let pdw = self.pixel_delta_width();
        let pdh = self.pixel_delta_height();
        let xfx: i128 = (x as i128) * FP_ONE + offset.x;
        let yfx: i128 = (y as i128) * FP_ONE + offset.y;
        proof {
            lemma_delta_span(pdw, xfx as int, self.image_width as int);
            lemma_delta_span(pdh, yfx as int, cam_image_height(*self));
        }
        let ps = p00.add(&pdw.scale(xfx)).add(&pdh.scale(yfx));
        proof {
            assert(ps == cam_pixel_sample(*self, x as int, y as int, *offset)) by {
                reveal(cam_pixel_sample);
            }
        }
        ps
    }

    /// The origin a generated ray leaves from: the camera centre, or a
    /// point on the defocus disk when depth of field is enabled.
    fn ray_origin_at(&self, disk_sample: (i128, i128)) -> (o: Point3)
        requires
            cam_ready(*self),
            -FP_ONE <= disk_sample.0 <= FP_ONE,
            -FP_ONE <= disk_sample.1 <= FP_ONE,
        ensures
            o == cam_ray_origin(*self, disk_sample.0 as int, disk_sample.1 as int),
            in_range(o, 0x4000_0000),
            self.tan_half_defocus_angle <= 0 ==> o == self.lookfrom,
    {
        let o = if self.tan_half_defocus_angle > 0 {
            let du = match &self.defocus_disk_u {
                Some(v) => *v,
                None => Vector3 { x: 0, y: 0, z: 0 },
            };
            let dv = match &self.defocus_disk_v {
                Some(v) => *v,
                None => Vector3 { x: 0, y: 0, z: 0 },
            };
            proof {
                lemma_fmul_mag_vec(du, disk_sample.0 as int, DEFOCUS_DISK_MAX as int, FP_ONE as int);
                lemma_fmul_mag_vec(dv, disk_sample.1 as int, DEFOCUS_DISK_MAX as int, FP_ONE as int);
            }
            self.center().add(&du.scale(disk_sample.0)).add(&dv.scale(disk_sample.1))
        } else {
            self.center()
        };
        proof {
            assert(o == cam_ray_origin(*self, disk_sample.0 as int, disk_sample.1 as int)) by {
                reveal(cam_ray_origin);
            }
        }
        o
    }

    /// The ray through the sample point of pixel `(x, y)`, with the pixel
    /// jitter and the defocus-disk point supplied by the caller: the
    /// origin sits at the camera centre or on the defocus disk, and the
    /// direction runs from the origin to the jittered sample location.
    pub fn ray_to_pixel_with(&self, x: i32, y: i32, offset: &Vector3, disk_sample: (
        i128,
        i128,
    )) -> (r: Ray)
        requires
            cam_ready(*self),
            0 <= x <= self.image_width,
            0 <= y as int <= cam_image_height(*self),
            -FP_HALF <= offset.x <= FP_HALF,
            -FP_HALF <= offset.y <= FP_HALF,
            -FP_ONE <= disk_sample.0 <= FP_ONE,
            -FP_ONE <= disk_sample.1 <= FP_ONE,
        ensures
            r == ray_to_pixel_spec(
                *self,
                x as int,
                y as int,
                *offset,
                disk_sample.0 as int,
                disk_sample.1 as int,
            ),
            ray_wf(r),
            self.tan_half_defocus_angle <= 0 ==> r.origin == self.lookfrom,
    {
        let pixel_sample = self.pixel_sample_at(x, y, offset);
        let ray_origin = self.ray_origin_at(disk_sample);
        let ray_direction = pixel_sample.sub(&ray_origin);
        let r = Ray::build(&ray_origin, &ray_direction);
        proof {
            assert(r == ray_to_pixel_spec(
                *self,
                x as int,
                y as int,
                *offset,
                disk_sample.0 as int,
                disk_sample.1 as int,
            )) by {
                reveal(ray_to_pixel_spec);
            }
        }
        r
    }

    /// The ray through pixel `(x, y)`, drawing the pixel jitter and, when
    /// depth of field is enabled, the defocus-disk point itself.
    pub fn ray_to_pixel(&self, x: i32, y: i32) -> (r: Ray)
        requires
            cam_ready(*self),
            0 <= x <= self.image_width,
            0 <= y as int <= cam_image_height(*self),
        ensures
            ray_wf(r),
            exists|off: Vector3, dx: i128, dy: i128|
                -FP_HALF <= off.x <= FP_HALF && -FP_HALF <= off.y <= FP_HALF && -FP_ONE <= dx
                    <= FP_ONE && -FP_ONE <= dy <= FP_ONE && r == ray_to_pixel_spec(
                    *self,
                    x as int,
                    y as int,
                    off,
                    dx as int,
                    dy as int,
                ),
            self.tan_half_defocus_angle <= 0 ==> r.origin == self.lookfrom,
    {
        let offset = sample_square();
        let disk_sample: (i128, i128) = if self.tan_half_defocus_angle > 0 {
            defocus_disk_sample()
        } else {
            (0, 0)
        };
        let r = self.ray_to_pixel_with(x, y, &offset, disk_sample);
        proof {
            assert(-FP_HALF <= offset.x <= FP_HALF && -FP_HALF <= offset.y <= FP_HALF && -FP_ONE
                <= disk_sample.0 <= FP_ONE && -FP_ONE <= disk_sample.1 <= FP_ONE && r
                == ray_to_pixel_spec(
                *self,
                x as int,
                y as int,
                offset,
                disk_sample.0 as int,
                disk_sample.1 as int,
            ));
        }
        r
    }

    /// One scanline of the image: every pixel averaged over the sample
    /// budget.
    pub fn render_row(&self, world: &HittableList, y: i32) -> (row: Vec<Colour>)
        requires
            cam_ready(*self),
            world.wf(),
            0 <= y as int <= cam_image_height(*self),
        ensures
            row@.len() == self.image_width as int,
            forall|k: int|
                0 <= k < row@.len() ==> in_range(#[trigger] row@[k], COLOUR_ABS_MAX as int),
            forall|k: int|
                0 <= k < row@.len() ==> pixel_outcome(
                    *self,
                    world.objects@,
                    k,
                    y as int,
                    #[trigger] row@[k],
                ),
            self.max_depth == 0 ==> forall|k: int|
                0 <= k < row@.len() ==> #[trigger] row@[k] == black(),
    {
        let mut row: Vec<Colour> = Vec::new();
        let mut x: i32 = 0;
        while x < self.image_width
            invariant
                cam_ready(*self),
                world.wf(),
                0 <= y as int <= cam_image_height(*self),
                0 <= x <= self.image_width,
                row@.len() == x as int,
                forall|k: int|
                    0 <= k < row@.len() ==> in_range(#[trigger] row@[k], COLOUR_ABS_MAX as int),
                forall|k: int|
                    0 <= k < row@.len() ==> pixel_outcome(
                        *self,
                        world.objects@,
                        k,
                        y as int,
                        #[trigger] row@[k],
                    ),
                self.max_depth == 0 ==> forall|k: int|
                    0 <= k < row@.len() ==> #[trigger] row@[k] == black(),
            decreases self.image_width - x,
        {
            let pixel = self.render_pixel(world, x, y);
            row.push(pixel);
            x = x + 1;
        }
        row
    }

    /// One pixel: the colour of `samples_per_pixel` rays through the
    /// pixel, averaged.
    pub fn render_pixel(&self, world: &HittableList, x: i32, y: i32) -> (pixel: Colour)
        requires
            cam_ready(*self),
            world.wf(),
            0 <= x <= self.image_width,
            0 <= y as int <= cam_image_height(*self),
        ensures
            in_range(pixel, COLOUR_ABS_MAX as int),
            pixel_outcome(*self, world.objects@, x as int, y as int, pixel),
            self.max_depth == 0 ==> pixel == black(),
    {
        let cmax: i128 = COLOUR_ABS_MAX;
        let ghost mut cs: Seq<Colour> = Seq::empty();
        let mut pixel_colour = Colour::new();
        let mut s: i32 = 0;
        while s < self.samples_per_pixel
            invariant
                cam_ready(*self),
                world.wf(),
                0 <= x <= self.image_width,
                0 <= y as int <= cam_image_height(*self),
                0 <= s <= self.samples_per_pixel,
                cmax == COLOUR_ABS_MAX,
                in_range(pixel_colour, s as int * (COLOUR_ABS_MAX as int)),
                cs.len() == s as int,
                pixel_colour == colour_sum(cs),
                forall|i: int|
                    0 <= i < cs.len() ==> admissible_sample(
                        *self,
                        world.objects@,
                        x as int,
                        y as int,
                        #[trigger] cs[i],
                    ),
                self.max_depth == 0 ==> pixel_colour == black(),
            decreases self.samples_per_pixel - s,
        {
            let r = self.ray_to_pixel(x, y);
            let sample_colour = ray_colour(&r, self.max_depth, world);
            proof {
                let (off, dx, dy) = choose|off: Vector3, dx: i128, dy: i128|
                    -FP_HALF <= off.x <= FP_HALF && -FP_HALF <= off.y <= FP_HALF && -FP_ONE <= dx
                        <= FP_ONE && -FP_ONE <= dy <= FP_ONE && r == ray_to_pixel_spec(
                        *self,
                        x as int,
                        y as int,
                        off,
                        dx as int,
                        dy as int,
                    );
                assert(radiance_outcome(
                    world.objects@,
                    ray_to_pixel_spec(*self, x as int, y as int, off, dx as int, dy as int),
                    self.max_depth as int,
                    sample_colour,
                ));
                assert(admissible_sample(
                    *self,
                    world.objects@,
                    x as int,
                    y as int,
                    sample_colour,
                ));
                assert(cs.push(sample_colour).drop_last() =~= cs);
                assert(cs.push(sample_colour).last() == sample_colour);
            }
            pixel_colour = pixel_colour.add(&sample_colour);
            proof {
                cs = cs.push(sample_colour);
            }
            s = s + 1;
        }
        let scale = self.pixel_samples_scale();
        proof {
            lemma_avg_bound(pixel_colour.x as int, scale as int, self.samples_per_pixel as int);
            lemma_avg_bound(pixel_colour.y as int, scale as int, self.samples_per_pixel as int);
            lemma_avg_bound(pixel_colour.z as int, scale as int, self.samples_per_pixel as int);
        }
        let pixel = pixel_colour.scale(scale);
        proof {
            if self.max_depth == 0 {
                lemma_scale_black(scale as int);
            }
            assert(pixel == scale_spec(colour_sum(cs), cam_pixel_samples_scale(*self)));
            assert(pixel_outcome(*self, world.objects@, x as int, y as int, pixel));
        }
        pixel
    }

    /// The whole image, row-major with the top row first.
    pub fn render(&self, world: &HittableList) -> (pixels: Vec<Colour>)
        requires
            cam_ready(*self),
            world.wf(),
        ensures
            pixels@.len() == cam_image_height(*self) * self.image_width as int,
            forall|k: int|
                0 <= k < pixels@.len() ==> in_range(#[trigger] pixels@[k], COLOUR_ABS_MAX as int),
            forall|yy: int, xx: int|
                0 <= yy < cam_image_height(*self) && 0 <= xx < self.image_width
                    ==> #[trigger] pixel_outcome(
                    *self,
                    world.objects@,
                    xx,
                    yy,
                    pixels@[yy * self.image_width as int + xx],
                ),
            self.max_depth == 0 ==> forall|k: int|
                0 <= k < pixels@.len() ==> #[trigger] pixels@[k] == black(),
    {
        let mut pixels: Vec<Colour> = Vec::new();
        let height = self.image_height();
        let ghost width = self.image_width as int;
        let mut y: i32 = 0;
        while y < height
            invariant
                cam_ready(*self),
                world.wf(),
                height as int == cam_image_height(*self),
                width == self.image_width as int,
                0 <= y <= height,
                pixels@.len() == y as int * width,
                forall|k: int|
                    0 <= k < pixels@.len() ==> in_range(#[trigger] pixels@[k], COLOUR_ABS_MAX as int),
                forall|yy: int, xx: int|
                    0 <= yy < y && 0 <= xx < width ==> #[trigger] pixel_outcome(
                        *self,
                        world.objects@,
                        xx,
                        yy,
                        pixels@[yy * width + xx],
                    ),
                self.max_depth == 0 ==> forall|k: int|
                    0 <= k < pixels@.len() ==> #[trigger] pixels@[k] == black(),
            decreases height - y,
        {
            let ghost old_pixels = pixels@;
            let mut row = self.render_row(world, y);
            let ghost row_view = row@;
            pixels.append(&mut row);
            proof {
                assert(pixels@ == old_pixels + row_view);
                assert((y + 1) * width == y * width + width) by (nonlinear_arith);
                assert forall|yy: int, xx: int|
                    0 <= yy < y + 1 && 0 <= xx < width implies #[trigger] pixel_outcome(
                    *self,
                    world.objects@,
                    xx,
                    yy,
                    pixels@[yy * width + xx],
                ) by {
                    if yy < y {
                        assert(0 <= yy * width + xx < y * width) by (nonlinear_arith)
                            requires
                                0 <= yy <= y - 1,
                                0 <= xx < width,
                                width >= 1,
                        ;
                        assert(pixels@[yy * width + xx] == old_pixels[yy * width + xx]);
                    } else {
                        assert(yy * width + xx == y * width + xx);
                        assert(pixels@[y as int * width + xx] == row_view[xx]);
                    }
                }
            }
            y = y + 1;
        }
        pixels
    }
}

/// The sample location of pixel `(x, y)` jittered by `off`, in world
/// coordinates.
#[verifier::opaque]
pub open spec fn cam_pixel_sample(c: Camera, x: int, y: int, off: Vector3) -> Point3 {
    add_spec(
        add_spec(
            cam_pixel00_loc(c),
            scale_spec(cam_pixel_delta_width(c), x * FP_ONE as int + off.x),
        ),
        scale_spec(cam_pixel_delta_height(c), y * FP_ONE as int + off.y),
    )
}

/// The ray origin: the camera centre for a pinhole, or a point on the
/// defocus disk when depth of field is enabled.
#[verifier::opaque]
pub open spec fn cam_ray_origin(c: Camera, dx: int, dy: int) -> Point3 {
    if c.tan_half_defocus_angle > 0 {
        add_spec(
            add_spec(c.lookfrom, scale_spec(cam_defocus_disk_u(c), dx)),
            scale_spec(cam_defocus_disk_v(c), dy),
        )
    } else {
        c.lookfrom
    }
}

/// The ray through pixel `(x, y)` for the given jitter and defocus-disk
/// point.
#[verifier::opaque]
pub open spec fn ray_to_pixel_spec(c: Camera, x: int, y: int, off: Vector3, dx: int, dy: int) -> Ray {
    Ray {
        origin: cam_ray_origin(c, dx, dy),
        direction: sub_spec(cam_pixel_sample(c, x, y, off), cam_ray_origin(c, dx, dy)),
    }
}

/// The componentwise sum of a sequence of colours.
pub open spec fn colour_sum(cs: Seq<Colour>) -> Colour
    decreases cs.len(),
{
    if cs.len() == 0 {
        black()
    } else {
        add_spec(colour_sum(cs.drop_last()), cs.last())
    }
}

/// Whether `sample` is a radiance outcome of some admissible ray through
/// pixel `(x, y)`: a ray built from a jitter within half a pixel and a
/// point on the unit defocus disk, integrated at the camera's full bounce
/// budget.
pub open spec fn admissible_sample(
    c: Camera,
    objs: Seq<Sphere>,
    x: int,
    y: int,
    sample: Colour,
) -> bool {
    exists|off: Vector3, dx: i128, dy: i128|
        {
            &&& -FP_HALF <= off.x <= FP_HALF
            &&& -FP_HALF <= off.y <= FP_HALF
            &&& -FP_ONE <= dx <= FP_ONE
            &&& -FP_ONE <= dy <= FP_ONE
            &&& #[trigger] radiance_outcome(
                objs,
                ray_to_pixel_spec(c, x, y, off, dx as int, dy as int),
                c.max_depth as int,
                sample,
            )
        }
}

/// What one rendered pixel may be: the average of one admissible radiance
/// sample per draw — the sum of `samples_per_pixel` sample colours scaled
/// by the per-sample averaging factor.
pub open spec fn pixel_outcome(c: Camera, objs: Seq<Sphere>, x: int, y: int, pixel: Colour) -> bool {
    exists|cs: Seq<Colour>|
        #![trigger colour_sum(cs)]
        {
            &&& cs.len() == c.samples_per_pixel as int
            &&& forall|i: int|
                0 <= i < cs.len() ==> admissible_sample(c, objs, x, y, #[trigger] cs[i])
            &&& pixel == scale_spec(colour_sum(cs), cam_pixel_samples_scale(c))
        }
}

/// Scaling the black colour leaves it black.
proof fn lemma_scale_black(t: int)
    ensures
        scale_spec(black(), t) == black(),
{
    vstd::arithmetic::div_mod::lemma_div_of0(FP_ONE as int);
    assert(0int * t == 0int) by (nonlinear_arith);
}

/// A pixel delta scaled by any in-image pixel coordinate stays inside the
/// viewport span budget.
pub proof fn lemma_delta_span(d: Vector3, t: int, count: int)
    requires
        in_range(d, cam_delta_limit(count)),
        abs_i(t) <= (count + 1) * (FP_ONE as int),
        1 <= count <= 65536,
    ensures
        in_range(scale_spec(d, t), VIEWPORT_SPAN_MAX as int),
        in_range(d, VIEWPORT_SPAN_MAX as int),
{
    let one = FP_ONE as int;
    let lim = cam_delta_limit(count);
    vstd::arithmetic::div_mod::lemma_div_pos_is_pos(VIEWPORT_SPAN_MAX as int, count + 1);
    lemma_fmul_mag(d.x as int, t, lim, (count + 1) * one);
    lemma_fmul_mag(d.y as int, t, lim, (count + 1) * one);
    lemma_fmul_mag(d.z as int, t, lim, (count + 1) * one);
    assert(lim * ((count + 1) * one) == (lim * (count + 1)) * one) by (nonlinear_arith);
    vstd::arithmetic::div_mod::lemma_div_multiples_vanish(lim * (count + 1), one);
    assert((lim * (count + 1)) * one == one * (lim * (count + 1))) by (nonlinear_arith);
    vstd::arithmetic::div_mod::lemma_fundamental_div_mod(VIEWPORT_SPAN_MAX as int, count + 1);
    vstd::arithmetic::div_mod::lemma_remainder_upper(VIEWPORT_SPAN_MAX as int, count + 1);
    vstd::arithmetic::div_mod::lemma_remainder_lower(VIEWPORT_SPAN_MAX as int, count + 1);
    assert(lim * (count + 1) <= VIEWPORT_SPAN_MAX as int) by (nonlinear_arith)
        requires
            VIEWPORT_SPAN_MAX as int == (count + 1) * lim + (VIEWPORT_SPAN_MAX as int) % (count
                + 1),
            0 <= (VIEWPORT_SPAN_MAX as int) % (count + 1),
    ;
    vstd::arithmetic::div_mod::lemma_div_is_ordered(
        VIEWPORT_SPAN_MAX as int,
        VIEWPORT_SPAN_MAX as int,
        1,
    );
}

/// The averaged pixel channel stays inside the colour bound: the sum of
/// `n` bounded samples times a scale of at most one over `n`.
pub proof fn lemma_avg_bound(sum: int, scale: int, n: int)
    requires
        n >= 1,
        0 <= scale,
        scale * n <= FP_ONE as int,
        abs_i(sum) <= n * (COLOUR_ABS_MAX as int),
    ensures
        abs_i(fmul(sum, scale)) <= COLOUR_ABS_MAX as int,
{
    let one = FP_ONE as int;
    let cmax = COLOUR_ABS_MAX as int;
    assert(-(cmax * one) <= sum * scale <= cmax * one) by (nonlinear_arith)
        requires
            -(n * cmax) <= sum <= n * cmax,
            0 <= scale,
            scale * n <= one,
            n >= 1,
            cmax == 524288,
            one == 65536,
    ;
    lemma_div_tz_mag(sum * scale, one);
    vstd::arithmetic::div_mod::lemma_div_is_ordered(abs_i(sum * scale), cmax * one, one);
    vstd::arithmetic::div_mod::lemma_div_multiples_vanish(cmax, one);
    assert(cmax * one == one * cmax) by (nonlinear_arith);
}

/// Every derived camera quantity depends on the configuration fields
/// alone: two cameras that agree on their configuration derive the same
/// view geometry.
pub proof fn lemma_cam_config_eq(c1: Camera, c2: Camera)
    requires
        c1.aspect_ratio == c2.aspect_ratio,
        c1.image_width == c2.image_width,
        c1.samples_per_pixel == c2.samples_per_pixel,
        c1.max_depth == c2.max_depth,
        c1.tan_half_fov == c2.tan_half_fov,
        c1.lookfrom == c2.lookfrom,
        c1.lookat == c2.lookat,
        c1.vup == c2.vup,
        c1.tan_half_defocus_angle == c2.tan_half_defocus_angle,
        c1.focus_dist == c2.focus_dist,
    ensures
        cam_projected_height(c1) == cam_projected_height(c2),
        cam_image_height(c1) == cam_image_height(c2),
        cam_pixel_samples_scale(c1) == cam_pixel_samples_scale(c2),
        cam_focal_length(c1) == cam_focal_length(c2),
        cam_focus(c1) == cam_focus(c2),
        cam_viewport_height(c1) == cam_viewport_height(c2),
        cam_viewport_width(c1) == cam_viewport_width(c2),
        cam_w(c1) == cam_w(c2),
        cam_u(c1) == cam_u(c2),
        cam_v(c1) == cam_v(c2),
        cam_viewport_width_vector(c1) == cam_viewport_width_vector(c2),
        cam_viewport_height_vector(c1) == cam_viewport_height_vector(c2),
        cam_pixel_delta_width(c1) == cam_pixel_delta_width(c2),
        cam_pixel_delta_height(c1) == cam_pixel_delta_height(c2),
        cam_pixel00_loc(c1) == cam_pixel00_loc(c2),
        cam_defocus_radius(c1) == cam_defocus_radius(c2),
        cam_defocus_disk_u(c1) == cam_defocus_disk_u(c2),
        cam_defocus_disk_v(c1) == cam_defocus_disk_v(c2),
        cam_ok(c1) == cam_ok(c2),
{
    reveal(cam_projected_height);
    reveal(cam_image_height);
    reveal(cam_pixel_samples_scale);
    reveal(cam_focal_length);
    reveal(cam_focus);
    reveal(cam_viewport_height);
    reveal(cam_viewport_width);
    reveal(cam_w);
    reveal(cam_u);
    reveal(cam_v);
    reveal(cam_viewport_width_vector);
    reveal(cam_viewport_height_vector);
    reveal(cam_pixel_delta_width);
    reveal(cam_pixel_delta_height);
    reveal(cam_pixel00_loc);
    reveal(cam_defocus_radius);
    reveal(cam_defocus_disk_u);
    reveal(cam_defocus_disk_v);
}

/// Division of a vector by a scalar of at least one unit never grows a
/// component.
pub proof fn lemma_div_vec_mag(vec: Vector3, t: int, c: int)
    requires
        t >= FP_ONE as int,
        in_range(vec, c),
        0 <= c <= 0x80_0000_0000_0000,
    ensures
        in_range(crate::common::vec3::div_spec(vec, t), c),
{
    lemma_fdiv_component(vec.x as int, t, c);
    lemma_fdiv_component(vec.y as int, t, c);
    lemma_fdiv_component(vec.z as int, t, c);
}

/// A fixed-point quotient by a divisor of at least one unit is bounded by
/// the dividend's magnitude.
pub proof fn lemma_fdiv_component(a: int, t: int, c: int)
    requires
        t >= FP_ONE as int,
        abs_i(a) <= c,
        0 <= c <= 0x80_0000_0000_0000,
    ensures
        abs_i(fdiv(a, t)) <= c,
{
    lemma_div_tz_mag(a * (FP_ONE as int), t);
    assert(abs_i(a * (FP_ONE as int)) == abs_i(a) * (FP_ONE as int));
    vstd::arithmetic::div_mod::lemma_div_is_ordered_by_denominator(
        abs_i(a) * (FP_ONE as int),
        FP_ONE as int,
        t,
    );
    vstd::arithmetic::div_mod::lemma_div_multiples_vanish(abs_i(a), FP_ONE as int);
    assert(abs_i(a) * (FP_ONE as int) == (FP_ONE as int) * abs_i(a)) by (nonlinear_arith);
    vstd::arithmetic::div_mod::lemma_div_pos_is_pos(abs_i(a) * (FP_ONE as int), t);
}

} // verus!
