//! The refractive material: a scattered ray bends by Snell's law, except
//! when the refraction ratio makes that impossible, in which case it
//! reflects instead (total internal reflection).  The branch is exact:
//! there is no probabilistic reflectance blend.

use vstd::prelude::*;

use crate::common::colour::{valid_colour, Colour};
use crate::common::fixed::{fdiv, fmul, fsqrt, fx_div, fx_mul, fx_sqrt, min_i, FP_ONE};
use crate::common::ray::{ray_wf, Ray};
use crate::common::vec3::{
    dot, in_range, lemma_fmul_mag_vec, max_0, neg_spec, reflect, reflect_spec, refract,
    refract_spec, unit_spec, unit_vector, Vector3, UNIT_MAX,
};
use crate::common::{REFRACT_RATIO_MAX, SCATTER_DIR_MAX};
use crate::materials::{white, Material};
use crate::primitive::hittable::{rec_normal, HitRecord};

verus! {

/// Smallest refractive index the fixed-point refraction arithmetic covers:
/// 1/128 of a unit, so the entering ratio stays representable.
pub const REFRACTIVE_INDEX_MIN: i128 = 512;

/// Largest refractive index the fixed-point refraction arithmetic covers:
/// 128 units.
pub const REFRACTIVE_INDEX_MAX: i128 = 0x80_0000;

pub struct Dialectric {
    pub albedo: Colour,
    pub refractive_index: i128,
}

/// The refraction ratio at the boundary: the reciprocal of the index when
/// the ray enters from outside, the index itself when it exits.
pub open spec fn dielectric_ratio(d: Dialectric, rec: HitRecord) -> int {
    if rec.front_face.unwrap() {
        fdiv(FP_ONE as int, d.refractive_index as int)
    } else {
        d.refractive_index as int
    }
}

/// The scattered direction of a dielectric: refract by Snell's law, or
/// reflect when the ratio and the incidence angle make refraction
/// impossible.
pub open spec fn dielectric_direction(d: Dialectric, dir: Vector3, rec: HitRecord) -> Vector3 {
    let ratio = dielectric_ratio(d, rec);
    let ud = unit_spec(dir);
    let n = rec_normal(rec);
    let cos_theta = min_i(dot(neg_spec(ud), n), FP_ONE as int);
    let sin_theta = fsqrt(max_0(FP_ONE as int - fmul(cos_theta, cos_theta)));
    if fmul(ratio, sin_theta) > FP_ONE as int {
        reflect_spec(ud, n)
    } else {
        refract_spec(ud, n, ratio)
    }
}

impl Dialectric {
    /// A clear boundary with a refractive index of one half.
    pub fn new() -> (r: Dialectric)
        ensures
            r.albedo == (Vector3 { x: 32768, y: 32768, z: 32768 }),
            r.refractive_index == 32768,
    {
        Dialectric { albedo: Colour::build(32768, 32768, 32768), refractive_index: 32768 }
    }

    pub fn build(colour: Colour, refractive_index: i128) -> (r: Dialectric)
        requires
            valid_colour(colour),
            REFRACTIVE_INDEX_MIN <= refractive_index <= REFRACTIVE_INDEX_MAX,
        ensures
            r.albedo == colour,
            r.refractive_index == refractive_index,
    {
        Dialectric { albedo: colour.clone(), refractive_index }
    }

    pub fn build_explicit(r: i128, g: i128, b: i128, refractive_index: i128) -> (res: Dialectric)
        requires
            0 <= r <= FP_ONE,
            0 <= g <= FP_ONE,
            0 <= b <= FP_ONE,
            REFRACTIVE_INDEX_MIN <= refractive_index <= REFRACTIVE_INDEX_MAX,
        ensures
            res.albedo == (Vector3 { x: r, y: g, z: b }),
            res.refractive_index == refractive_index,
    {
        Dialectric { albedo: Colour::build(r, g, b), refractive_index }
    }

    pub fn from(colour: Colour, refractive_index: i128) -> (r: Dialectric)
        requires
            valid_colour(colour),
            REFRACTIVE_INDEX_MIN <= refractive_index <= REFRACTIVE_INDEX_MAX,
        ensures
            r.albedo == colour,
            r.refractive_index == refractive_index,
    {
        Dialectric { albedo: colour, refractive_index }
    }

    /// Refractive scattering: always continues, attenuates by fixed white
    /// (the stored albedo is deliberately unused), and leaves from the hit
    /// point along the deterministic reflect-or-refract direction.
    pub fn scatter(&self, ray_in: &Ray, hit_rec: &HitRecord) -> (r: (bool, Colour, Ray))
        requires
            hit_rec.wf(),
            ray_wf(*ray_in),
            REFRACTIVE_INDEX_MIN <= self.refractive_index <= REFRACTIVE_INDEX_MAX,
        ensures
            r.0 == true,
            r.1 == white(),
            r.2.origin == hit_rec.point,
            r.2.direction == dielectric_direction(*self, ray_in.direction, *hit_rec),
            in_range(r.2.direction, SCATTER_DIR_MAX as int),
            ray_wf(r.2),
    {
        let attenuation = Colour::build(FP_ONE, FP_ONE, FP_ONE);
        let normal = hit_rec.normal();

        let refractive_index_ratio: i128 = if hit_rec.front_face() {
            fx_div(FP_ONE, self.refractive_index)
        } else {
            self.refractive_index
        };
        proof {
            lemma_entering_ratio_bounds(self.refractive_index as int);
        }

        let unit_direction = unit_vector(ray_in.direction());

        let neg_ud = unit_direction.neg();
        proof {
            crate::common::vec3::lemma_fmul_mag_vec3_dot(
                neg_ud,
                normal,
                UNIT_MAX as int,
                crate::common::NORMAL_MAX as int,
            );
        }
        let cos_raw = crate::common::vec3::dot_product(&neg_ud, &normal);
        let cos_theta = if cos_raw > FP_ONE {
            FP_ONE
        } else {
            cos_raw
        };
        let cos_sq = fx_mul(cos_theta, cos_theta);
        proof {
            crate::common::vec3::lemma_fmul_square_nonneg(cos_theta as int);
        }
        let sin_sq = if cos_sq < FP_ONE {
            FP_ONE - cos_sq
        } else {
            0
        };
        let sin_theta = fx_sqrt(sin_sq);
        proof {
            assert(sin_theta <= FP_ONE) by (nonlinear_arith)
                requires
                    sin_theta >= 0,
                    sin_theta * sin_theta <= sin_sq * (FP_ONE as int),
                    sin_sq <= FP_ONE,
            ;
        }

        let cannot_refract = fx_mul(refractive_index_ratio, sin_theta) > FP_ONE;
        let direction = if cannot_refract {
            reflect(&unit_direction, &normal)
        } else {
            refract(&unit_direction, &normal, refractive_index_ratio)
        };
        proof {
            if cannot_refract {
                lemma_reflected_unit_in_scatter_range(unit_direction, normal);
            }
        }

        (true, attenuation, Ray::build(&hit_rec.point(), &direction))
    }
}

/// The entering ratio `1 / index` stays within the representable ratio
/// range whenever the index does.
proof fn lemma_entering_ratio_bounds(ri: int)
    requires
        REFRACTIVE_INDEX_MIN as int <= ri <= REFRACTIVE_INDEX_MAX as int,
    ensures
        0 < fdiv(FP_ONE as int, ri) <= REFRACT_RATIO_MAX as int,
{
    let one = FP_ONE as int;
    vstd::arithmetic::div_mod::lemma_div_is_ordered_by_denominator(
        one * one,
        REFRACTIVE_INDEX_MIN as int,
        ri,
    );
    assert(one * one == 0x1_0000_0000);
    assert(0x1_0000_0000int / 512int == REFRACT_RATIO_MAX as int) by (nonlinear_arith);
    vstd::arithmetic::div_mod::lemma_div_non_zero(one * one, ri);
}

/// Reflecting a normalized direction about a near-unit normal keeps every
/// component far inside the scattered-direction range.
proof fn lemma_reflected_unit_in_scatter_range(ud: Vector3, n: Vector3)
    requires
        in_range(ud, UNIT_MAX as int),
        in_range(n, crate::common::NORMAL_MAX as int),
    ensures
        in_range(reflect_spec(ud, n), SCATTER_DIR_MAX as int),
{
    let nm = crate::common::NORMAL_MAX as int;
    crate::common::vec3::lemma_fmul_mag_vec3_dot(ud, n, UNIT_MAX as int, nm);
    lemma_fmul_mag_vec(n, 2 * dot(ud, n), nm, 2359296);
}

impl Material for Dialectric {
    open spec fn wf(&self) -> bool {
        valid_colour(self.albedo) && REFRACTIVE_INDEX_MIN <= self.refractive_index
            <= REFRACTIVE_INDEX_MAX
    }

    fn scatter(&self, ray_in: &Ray, hit_rec: &HitRecord) -> (r: (bool, Colour, Ray)) {
        Dialectric::scatter(self, ray_in, hit_rec)
    }
}

} // verus!
