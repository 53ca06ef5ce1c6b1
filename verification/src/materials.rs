//! The material-scattering protocol: how a ray continues after a hit.
//!
//! Materials are shared across many surfaces through reference-counted
//! handles; the closed set of variants is dispatched explicitly.

use vstd::prelude::*;

use std::rc::Rc;

pub mod dielectric;
pub mod lambertian;
pub mod metal;

use crate::common::colour::{valid_colour, Colour};
use crate::common::fixed::FP_ONE;
use crate::common::ray::{ray_wf, Ray};
use crate::common::vec3::{dot, in_range, is_unit_sample, Vector3, UNIT_MAX};
use crate::common::SCATTER_DIR_MAX;
use crate::materials::dielectric::{dielectric_direction, Dialectric};
use crate::materials::lambertian::{lambertian_direction, Lambertian};
use crate::materials::metal::{metal_direction, Metal};
use crate::primitive::hittable::{rec_normal, HitRecord};

verus! {

/// A shared, read-only handle to a material: one material instance may
/// govern arbitrarily many surfaces.
pub type MatRc = Rc<MaterialKind>;

/// The closed set of material variants the renderer dispatches over.
pub enum MaterialKind {
    Lambertian(Lambertian),
    Metal(Metal),
    Dialectric(Dialectric),
}

/// Attenuation colours inside `[0, 1]` and parameters inside the ranges
/// the fixed-point arithmetic covers.
pub open spec fn material_wf(m: MaterialKind) -> bool {
    match m {
        MaterialKind::Lambertian(l) => valid_colour(l.albedo),
        MaterialKind::Metal(mt) => valid_colour(mt.albedo) && 0 <= mt.fuzz <= FP_ONE,
        MaterialKind::Dialectric(d) => valid_colour(d.albedo)
            && dielectric::REFRACTIVE_INDEX_MIN <= d.refractive_index
            <= dielectric::REFRACTIVE_INDEX_MAX,
    }
}

/// The pure white colour a dielectric attenuates by.
pub open spec fn white() -> Colour {
    Vector3 { x: FP_ONE, y: FP_ONE, z: FP_ONE }
}

/// What scattering returns, as a relation over the one random unit sample
/// `u` the material may draw.  A dielectric draws nothing and its entry
/// holds for every `u`.
pub open spec fn scatter_rel(
    m: MaterialKind,
    ray_in: Ray,
    rec: HitRecord,
    u: Vector3,
    r: (bool, Colour, Ray),
) -> bool {
    r.2.origin == rec.point && match m {
        MaterialKind::Lambertian(l) => {
            &&& r.0 == true
            &&& r.1 == l.albedo
            &&& r.2.direction == lambertian_direction(rec_normal(rec), u)
        },
        MaterialKind::Metal(mt) => {
            &&& r.2.direction == metal_direction(
                ray_in.direction,
                rec_normal(rec),
                mt.fuzz as int,
                u,
            )
            &&& r.0 == (dot(r.2.direction, rec_normal(rec)) > 0)
            &&& r.1 == mt.albedo
        },
        MaterialKind::Dialectric(d) => {
            &&& r.0 == true
            &&& r.1 == white()
            &&& r.2.direction == dielectric_direction(d, ray_in.direction, rec)
        },
    }
}

/// The scattering capability: how a ray continues after a hit.  The first
/// component of the result tells whether the ray continues at all; when it
/// is false the ray is absorbed and the integrator contributes black.
pub trait Material {
    spec fn wf(&self) -> bool;

    fn scatter(&self, ray_in: &Ray, hit_rec: &HitRecord) -> (r: (bool, Colour, Ray))
        requires
            self.wf(),
            ray_wf(*ray_in),
            hit_rec.wf(),
        ensures
            valid_colour(r.1),
            r.2.origin == hit_rec.point,
            in_range(r.2.direction, SCATTER_DIR_MAX as int),
            ray_wf(r.2),
    ;
}

impl MaterialKind {
    /// Scattering dispatched over the closed set of variants.  The result
    /// is pinned down by `scatter_rel` for some drawn unit sample `u`; a
    /// caller that supplies the sample itself can use the per-material
    /// functions instead.
    pub fn scatter(&self, ray_in: &Ray, hit_rec: &HitRecord) -> (r: (bool, Colour, Ray))
        requires
            material_wf(*self),
            ray_wf(*ray_in),
            hit_rec.wf(),
        ensures
            exists|u: Vector3|
                in_range(u, UNIT_MAX as int) && #[trigger] scatter_rel(
                    *self,
                    *ray_in,
                    *hit_rec,
                    u,
                    r,
                ),
            valid_colour(r.1),
            r.2.origin == hit_rec.point,
            in_range(r.2.direction, SCATTER_DIR_MAX as int),
            ray_wf(r.2),
    {
        match self {
            MaterialKind::Lambertian(l) => {
                let r = l.scatter(ray_in, hit_rec);
                proof {
                    let u = choose|u: Vector3|
                        in_range(u, UNIT_MAX as int) && is_unit_sample(u) && r.2.direction
                            == lambertian_direction(rec_normal(*hit_rec), u);
                    assert(in_range(u, UNIT_MAX as int) && scatter_rel(
                        *self,
                        *ray_in,
                        *hit_rec,
                        u,
                        r,
                    ));
                }
                r
            },
            MaterialKind::Metal(mt) => {
                let r = mt.scatter(ray_in, hit_rec);
                proof {
                    let u = choose|u: Vector3|
                        in_range(u, UNIT_MAX as int) && is_unit_sample(u) && r.2.direction
                            == metal_direction(
                            ray_in.direction,
                            rec_normal(*hit_rec),
                            mt.fuzz as int,
                            u,
                        );
                    assert(in_range(u, UNIT_MAX as int) && scatter_rel(
                        *self,
                        *ray_in,
                        *hit_rec,
                        u,
                        r,
                    ));
                }
                r
            },
            MaterialKind::Dialectric(d) => {
                let r = d.scatter(ray_in, hit_rec);
                proof {
                    let u = Vector3 { x: 0, y: 0, z: 0 };
                    assert(in_range(u, UNIT_MAX as int) && scatter_rel(
                        *self,
                        *ray_in,
                        *hit_rec,
                        u,
                        r,
                    ));
                }
                r
            },
        }
    }
}

impl Material for MaterialKind {
    open spec fn wf(&self) -> bool {
        material_wf(*self)
    }

    fn scatter(&self, ray_in: &Ray, hit_rec: &HitRecord) -> (r: (bool, Colour, Ray)) {
        MaterialKind::scatter(self, ray_in, hit_rec)
    }
}

} // verus!
