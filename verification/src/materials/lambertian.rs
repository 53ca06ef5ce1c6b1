//! The ideal diffuse material: a scattered ray leaves toward the surface
//! normal offset by a random unit vector, which biases the distribution
//! toward the normal.

use vstd::prelude::*;

use crate::common::colour::{valid_colour, Colour};
use crate::common::fixed::FP_ONE;
use crate::common::ray::{ray_wf, Ray};
use crate::common::vec3::{
    add_spec, in_range, is_unit_sample, near_zero_spec, random_unit_vector, Vector3, UNIT_MAX,
};
use crate::common::SCATTER_DIR_MAX;
use crate::materials::Material;
use crate::primitive::hittable::{rec_normal, HitRecord};

verus! {

pub struct Lambertian {
    pub albedo: Colour,
}

/// The diffuse scatter direction: the surface normal plus a random unit
/// offset, with the bare normal substituted when the two nearly cancel.
pub open spec fn lambertian_direction(normal: Vector3, unit_sample: Vector3) -> Vector3 {
    let d = add_spec(normal, unit_sample);
    if near_zero_spec(d) {
        normal
    } else {
        d
    }
}

impl Lambertian {
    /// A mid-grey diffuse material.
    pub fn new() -> (r: Lambertian)
        ensures
            r.albedo == (Vector3 { x: 32768, y: 32768, z: 32768 }),
            valid_colour(r.albedo),
    {
        Lambertian { albedo: Colour::build(32768, 32768, 32768) }
    }

    pub fn build(colour: Colour) -> (r: Lambertian)
        requires
            valid_colour(colour),
        ensures
            r.albedo == colour,
    {
        Lambertian { albedo: colour.clone() }
    }

    pub fn build_explicit(r: i128, g: i128, b: i128) -> (res: Lambertian)
        requires
            0 <= r <= FP_ONE,
            0 <= g <= FP_ONE,
            0 <= b <= FP_ONE,
        ensures
            res.albedo == (Vector3 { x: r, y: g, z: b }),
    {
        Lambertian { albedo: Colour::build(r, g, b) }
    }

    pub fn from(colour: Colour) -> (r: Lambertian)
        requires
            valid_colour(colour),
        ensures
            r.albedo == colour,
    {
        Lambertian { albedo: colour }
    }

    /// Diffuse scattering with the random unit offset supplied by the
    /// caller: always continues, attenuates by the albedo, and leaves from
    /// the hit point along `lambertian_direction`.
    pub fn scatter_with(&self, hit_rec: &HitRecord, unit_sample: &Vector3) -> (r: (
        bool,
        Colour,
        Ray,
    ))
        requires
            hit_rec.wf(),
            in_range(*unit_sample, UNIT_MAX as int),
        ensures
            r.0 == true,
            r.1 == self.albedo,
            r.2.origin == hit_rec.point,
            r.2.direction == lambertian_direction(rec_normal(*hit_rec), *unit_sample),
            in_range(r.2.direction, SCATTER_DIR_MAX as int),
            ray_wf(r.2),
    {
        let normal = hit_rec.normal();
        let mut scatter_direction = normal.add(unit_sample);
        if scatter_direction.near_zero() {
            scatter_direction = normal;
        }
        let scattered_ray = Ray::build(&hit_rec.point(), &scatter_direction);
        (true, self.albedo, scattered_ray)
    }

    /// Diffuse scattering, drawing the random unit offset itself.
    pub fn scatter(&self, ray_in: &Ray, hit_rec: &HitRecord) -> (r: (bool, Colour, Ray))
        requires
            hit_rec.wf(),
        ensures
            r.0 == true,
            r.1 == self.albedo,
            r.2.origin == hit_rec.point,
            exists|u: Vector3|
                in_range(u, UNIT_MAX as int) && is_unit_sample(u) && r.2.direction
                    == lambertian_direction(rec_normal(*hit_rec), u),
            in_range(r.2.direction, SCATTER_DIR_MAX as int),
            ray_wf(r.2),
    {
        let unit_sample = random_unit_vector();
        let r = self.scatter_with(hit_rec, &unit_sample);
        proof {
            assert(in_range(unit_sample, UNIT_MAX as int) && is_unit_sample(unit_sample)
                && r.2.direction == lambertian_direction(rec_normal(*hit_rec), unit_sample));
        }
        r
    }
}

impl Material for Lambertian {
    open spec fn wf(&self) -> bool {
        valid_colour(self.albedo)
    }

    fn scatter(&self, ray_in: &Ray, hit_rec: &HitRecord) -> (r: (bool, Colour, Ray)) {
        Lambertian::scatter(self, ray_in, hit_rec)
    }
}

} // verus!
