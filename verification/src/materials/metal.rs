//! The rough specular material: a scattered ray mirrors the incoming
//! direction, perturbed by a fuzz-scaled random unit vector, and is
//! absorbed when the perturbation bends it below the surface.

use vstd::prelude::*;

use crate::common::colour::{valid_colour, Colour};
use crate::common::fixed::{fmul, FP_ONE};
use crate::common::ray::{ray_wf, Ray};
use crate::common::vec3::{
    add_spec, dot, in_range, is_unit_sample, lemma_fmul_mag_vec, random_unit_vector, reflect,
    reflect_spec, scale_spec, unit_spec, unit_vector, Vector3, UNIT_MAX,
};
use crate::common::SCATTER_DIR_MAX;
use crate::materials::Material;
use crate::primitive::hittable::{rec_normal, HitRecord};

verus! {

pub struct Metal {
    pub albedo: Colour,
    pub fuzz: i128,
}

/// The rough specular scatter direction: the normalized mirror reflection
/// of the incoming direction, perturbed by the fuzz-scaled unit sample.
pub open spec fn metal_direction(d: Vector3, normal: Vector3, fuzz: int, unit_sample: Vector3) -> Vector3 {
    add_spec(unit_spec(reflect_spec(d, normal)), scale_spec(unit_sample, fuzz))
}

impl Metal {
    /// A mid-grey metal of middling roughness.
    pub fn new() -> (r: Metal)
        ensures
            r.albedo == (Vector3 { x: 32768, y: 32768, z: 32768 }),
            r.fuzz == 32768,
    {
        Metal { albedo: Colour::build(32768, 32768, 32768), fuzz: 32768 }
    }

    pub fn build(colour: Colour, fuzz: i128) -> (r: Metal)
        requires
            valid_colour(colour),
            0 <= fuzz <= FP_ONE,
        ensures
            r.albedo == colour,
            r.fuzz == fuzz,
    {
        Metal { albedo: colour.clone(), fuzz }
    }

    pub fn build_explicit(r: i128, g: i128, b: i128, fuzz: i128) -> (res: Metal)
        requires
            0 <= r <= FP_ONE,
            0 <= g <= FP_ONE,
            0 <= b <= FP_ONE,
            0 <= fuzz <= FP_ONE,
        ensures
            res.albedo == (Vector3 { x: r, y: g, z: b }),
            res.fuzz == fuzz,
    {
        Metal { albedo: Colour::build(r, g, b), fuzz }
    }

    pub fn from(colour: Colour, fuzz: i128) -> (r: Metal)
        requires
            valid_colour(colour),
            0 <= fuzz <= FP_ONE,
        ensures
            r.albedo == colour,
            r.fuzz == fuzz,
    {
        Metal { albedo: colour, fuzz }
    }

    /// Rough specular scattering with the random unit perturbation supplied
    /// by the caller.  The ray continues exactly when the perturbed
    /// direction still points away from the surface; with no roughness the
    /// scattered direction is the exact normalized mirror reflection.
    pub fn scatter_with(&self, ray_in: &Ray, hit_rec: &HitRecord, unit_sample: &Vector3) -> (r: (
        bool,
        Colour,
        Ray,
    ))
        requires
            hit_rec.wf(),
            ray_wf(*ray_in),
            in_range(*unit_sample, UNIT_MAX as int),
            0 <= self.fuzz <= FP_ONE,
        ensures
            r.2.direction == metal_direction(
                ray_in.direction,
                rec_normal(*hit_rec),
                self.fuzz as int,
                *unit_sample,
            ),
            r.0 == (dot(r.2.direction, rec_normal(*hit_rec)) > 0),
            r.1 == self.albedo,
            r.2.origin == hit_rec.point,
            self.fuzz == 0 ==> r.2.direction == unit_spec(
                reflect_spec(ray_in.direction, rec_normal(*hit_rec)),
            ),
            in_range(r.2.direction, SCATTER_DIR_MAX as int),
            ray_wf(r.2),
    {
        let normal = hit_rec.normal();
        let reflect_direction = reflect(ray_in.direction(), &normal);
        proof {
            lemma_fmul_mag_vec(*unit_sample, self.fuzz as int, UNIT_MAX as int, FP_ONE as int);
        }
        let reflected = unit_vector(&reflect_direction).add(&unit_sample.scale(self.fuzz));
        let scattered_ray = Ray::build(&hit_rec.point(), &reflected);
        proof {
            if self.fuzz == 0 {
                crate::common::vec3::lemma_scale_zero(*unit_sample);
            }
        }
        (
            crate::common::vec3::dot_product(scattered_ray.direction(), &normal) > 0,
            self.albedo,
            scattered_ray,
        )
    }

    /// Rough specular scattering, drawing the random unit perturbation
    /// itself.
    pub fn scatter(&self, ray_in: &Ray, hit_rec: &HitRecord) -> (r: (bool, Colour, Ray))
        requires
            hit_rec.wf(),
            ray_wf(*ray_in),
            0 <= self.fuzz <= FP_ONE,
        ensures
            r.1 == self.albedo,
            r.2.origin == hit_rec.point,
            exists|u: Vector3|
                in_range(u, UNIT_MAX as int) && is_unit_sample(u) && r.2.direction
                    == metal_direction(
                    ray_in.direction,
                    rec_normal(*hit_rec),
                    self.fuzz as int,
                    u,
                ),
            r.0 == (dot(r.2.direction, rec_normal(*hit_rec)) > 0),
            in_range(r.2.direction, SCATTER_DIR_MAX as int),
            ray_wf(r.2),
    {
        let unit_sample = random_unit_vector();
        let r = self.scatter_with(ray_in, hit_rec, &unit_sample);
        proof {
            assert(in_range(unit_sample, UNIT_MAX as int) && is_unit_sample(unit_sample)
                && r.2.direction == metal_direction(
                ray_in.direction,
                rec_normal(*hit_rec),
                self.fuzz as int,
                unit_sample,
            ));
        }
        r
    }
}

impl Material for Metal {
    open spec fn wf(&self) -> bool {
        valid_colour(self.albedo) && 0 <= self.fuzz <= FP_ONE
    }

    fn scatter(&self, ray_in: &Ray, hit_rec: &HitRecord) -> (r: (bool, Colour, Ray)) {
        Metal::scatter(self, ray_in, hit_rec)
    }
}

} // verus!
