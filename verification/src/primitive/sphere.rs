//! The sphere primitive: closed-form quadratic intersection.

use vstd::prelude::*;

use std::rc::Rc;

use crate::common::fixed::{
    abs_i, fdiv, fmul, fsqrt, fx_div, fx_mul, fx_sqrt, lemma_fmul_mag, FP_ONE,
};
use crate::common::interval::Interval;
use crate::common::ray::{ray_at_spec, ray_wf, Ray};
use crate::common::vec3::{
    div_spec, dot, dot_product, in_range, lemma_fmul_mag_vec3_dot, neg_spec, sub_spec, Point3,
    Vector3,
};
use crate::common::{NORMAL_LS_MAX, NORMAL_LS_MIN, NORMAL_MAX, RAY_T_MAX, WORLD_MAX};
use crate::materials::{material_wf, MatRc};
use crate::primitive::hittable::{HitRecord, Hittable};

verus! {

/// A sphere: centre, radius and the shared material that governs its
/// surface.  Immutable after construction.
pub struct Sphere {
    pub center: Point3,
    pub material: MatRc,
    pub radius: i128,
}

/// The vector from the ray origin to the sphere centre.
pub open spec fn sphere_oc(s: Sphere, r: Ray) -> Vector3 {
    sub_spec(s.center, r.origin)
}

/// The leading quadratic coefficient: the squared length of the direction.
pub open spec fn sphere_a(r: Ray) -> int {
    dot(r.direction, r.direction)
}

/// Half the negated linear coefficient.
pub open spec fn sphere_h(s: Sphere, r: Ray) -> int {
    dot(r.direction, sphere_oc(s, r))
}

/// The constant coefficient.
pub open spec fn sphere_c(s: Sphere, r: Ray) -> int {
    dot(sphere_oc(s, r), sphere_oc(s, r)) - fmul(s.radius as int, s.radius as int)
}

/// The discriminant of the intersection quadratic; negative exactly when
/// the ray's line misses the sphere.
pub open spec fn sphere_discriminant(s: Sphere, r: Ray) -> int {
    fmul(sphere_h(s, r), sphere_h(s, r)) - fmul(sphere_a(r), sphere_c(s, r))
}

/// The intersection parameter the algorithm selects: the smaller root when
/// it lies strictly inside the valid range, else the larger root, else
/// nothing.  A direction whose squared length truncates to zero supports
/// no intersection at all.
pub open spec fn sphere_root(s: Sphere, r: Ray, tmin: int, tmax: int) -> Option<int> {
    let a = sphere_a(r);
    let disc = sphere_discriminant(s, r);
    if a <= 0 || disc < 0 {
        None
    } else {
        let sqrtd = fsqrt(disc);
        let root1 = fdiv(sphere_h(s, r) - sqrtd, a);
        if tmin < root1 < tmax {
            Some(root1)
        } else {
            let root2 = fdiv(sphere_h(s, r) + sqrtd, a);
            if tmin < root2 < tmax {
                Some(root2)
            } else {
                None
            }
        }
    }
}

/// The geometric outward normal at parameter `t`: the offset from the
/// centre divided by the radius, unit length up to rounding.
pub open spec fn sphere_outward_normal(s: Sphere, r: Ray, t: int) -> Vector3 {
    div_spec(sub_spec(ray_at_spec(r, t), s.center), s.radius as int)
}

/// Whether the outward normal opposes the ray: the front-face flag.
pub open spec fn sphere_face(s: Sphere, r: Ray, t: int) -> bool {
    dot(r.direction, sphere_outward_normal(s, r, t)) < 0
}

/// The stored normal: the outward normal oriented against the ray.
pub open spec fn sphere_normal(s: Sphere, r: Ray, t: int) -> Vector3 {
    if sphere_face(s, r, t) {
        sphere_outward_normal(s, r, t)
    } else {
        neg_spec(sphere_outward_normal(s, r, t))
    }
}

/// Whether the hit record at parameter `t` is representable: the hit point
/// inside the world range, the normal within its component rounding bound
/// and of near-unit squared length.  In a world of sane proportions this
/// always holds.
pub open spec fn sphere_rec_ok(s: Sphere, r: Ray, t: int) -> bool {
    &&& in_range(ray_at_spec(r, t), WORLD_MAX as int)
    &&& in_range(sphere_outward_normal(s, r, t), NORMAL_MAX as int)
    &&& NORMAL_LS_MIN as int <= dot(
        sphere_outward_normal(s, r, t),
        sphere_outward_normal(s, r, t),
    ) <= NORMAL_LS_MAX as int
}

/// The record the sphere produces at parameter `t`: the hit point, the
/// normal oriented against the ray, the orientation flag and a handle to
/// the sphere's material.
pub open spec fn sphere_record(s: Sphere, r: Ray, t: int) -> HitRecord {
    HitRecord {
        point: ray_at_spec(r, t),
        normal: Some(sphere_normal(s, r, t)),
        material: s.material,
        t: t as i128,
        front_face: Some(sphere_face(s, r, t)),
    }
}

/// The parameter of the hit the sphere reports over `(tmin, tmax)`, if any.
pub open spec fn sphere_hit_t(s: Sphere, r: Ray, tmin: int, tmax: int) -> Option<int> {
    match sphere_root(s, r, tmin, tmax) {
        None => None,
        Some(t) => if sphere_rec_ok(s, r, t) {
            Some(t)
        } else {
            None
        },
    }
}

/// A ray whose line misses the sphere entirely, that is whose
/// discriminant is negative, reports no hit over any valid range.
pub proof fn lemma_sphere_discriminant_miss(s: Sphere, r: Ray, tmin: int, tmax: int)
    requires
        sphere_discriminant(s, r) < 0,
    ensures
        sphere_hit_t(s, r, tmin, tmax) is None,
{
}

/// Shrinking the upper end of the valid range from `t1` to `t2` never
/// invents a hit: a hit found over the shrunk range is the same hit found
/// over the wide one, and if the shrunk range finds none, the wide range
/// finds none either or one at or beyond `t2`.
pub proof fn lemma_sphere_hit_interval(s: Sphere, r: Ray, tmin: int, t1: int, t2: int)
    requires
        t2 <= t1,
    ensures
        sphere_hit_t(s, r, tmin, t2) matches Some(t) ==> sphere_hit_t(s, r, tmin, t1) == Some(t),
        sphere_hit_t(s, r, tmin, t2) is None ==> (sphere_hit_t(s, r, tmin, t1) is None
            || sphere_hit_t(s, r, tmin, t1).unwrap() >= t2),
{
    let a = sphere_a(r);
    let disc = sphere_discriminant(s, r);
    if a <= 0 || disc < 0 {
    } else {
        let sqrtd = fsqrt(disc);
        let h = sphere_h(s, r);
        assert(sqrtd >= 0);
        crate::common::fixed::lemma_fdiv_mono(h - sqrtd, h + sqrtd, a);
        let root1 = fdiv(h - sqrtd, a);
        let root2 = fdiv(h + sqrtd, a);
        assert(root1 <= root2);
    }
}

impl Sphere {
    /// Centre, radius and material all inside the ranges the intersection
    /// arithmetic covers.
    pub open spec fn wf(&self) -> bool {
        &&& in_range(self.center, WORLD_MAX as int)
        &&& 1 <= self.radius <= WORLD_MAX
        &&& material_wf(*self.material)
    }

    /// The unit sphere at the origin.
    pub fn new(material: &MatRc) -> (r: Sphere)
        ensures
            r.center == (Vector3 { x: 0, y: 0, z: 0 }),
            r.radius == FP_ONE,
            r.material == *material,
    {
        Sphere { center: Point3::new(), material: Rc::clone(material), radius: FP_ONE }
    }

    pub fn build(center: &Point3, radius: &i128, material: &MatRc) -> (r: Sphere)
        requires
            in_range(*center, WORLD_MAX as int),
            1 <= *radius <= WORLD_MAX,
        ensures
            r.center == *center,
            r.radius == *radius,
            r.material == *material,
    {
        Sphere { center: *center, material: Rc::clone(material), radius: *radius }
    }

    pub fn build_explicit(center: (i128, i128, i128), radius: i128, material: &MatRc) -> (r:
        Sphere)
        requires
            abs_i(center.0 as int) <= WORLD_MAX as int,
            abs_i(center.1 as int) <= WORLD_MAX as int,
            abs_i(center.2 as int) <= WORLD_MAX as int,
            1 <= radius <= WORLD_MAX,
        ensures
            r.center == (Vector3 { x: center.0, y: center.1, z: center.2 }),
            r.radius == radius,
            r.material == *material,
    {
        Sphere {
            center: Point3::build(center.0, center.1, center.2),
            material: Rc::clone(material),
            radius,
        }
    }

    /// The nearest intersection with the ray strictly inside `ray_t`, by
    /// the closed-form quadratic.  Reports no hit exactly when the
    /// algorithm selects no root in range or the record would not be
    /// representable.
    pub fn hit(&self, ray: &Ray, ray_t: &Interval) -> (r: (bool, Option<HitRecord>))
        requires
            self.wf(),
            ray_wf(*ray),
            -RAY_T_MAX <= ray_t.min,
            ray_t.max <= RAY_T_MAX,
        ensures
            r.0 == (r.1 is Some),
            r.0 == (sphere_hit_t(*self, *ray, ray_t.min as int, ray_t.max as int) is Some),
            r.1 matches Some(rec) ==> {
                &&& sphere_hit_t(*self, *ray, ray_t.min as int, ray_t.max as int) == Some(
                    rec.t as int,
                )
                &&& rec == sphere_record(*self, *ray, rec.t as int)
                &&& rec.point == ray_at_spec(*ray, rec.t as int)
                &&& rec.normal == Some(sphere_normal(*self, *ray, rec.t as int))
                &&& rec.front_face == Some(sphere_face(*self, *ray, rec.t as int))
                &&& rec.material == self.material
                &&& rec.wf()
                &&& ray_t.surrounds_spec(rec.t as int)
            },
    {
        let origin_to_center = self.center.sub(ray.origin());
        proof {
            lemma_fmul_mag_vec3_dot(
                ray.direction,
                ray.direction,
                WORLD_MAX as int,
                WORLD_MAX as int,
            );
            lemma_fmul_mag_vec3_dot(
                ray.direction,
                origin_to_center,
                WORLD_MAX as int,
                2 * WORLD_MAX as int,
            );
            lemma_fmul_mag_vec3_dot(
                origin_to_center,
                origin_to_center,
                2 * WORLD_MAX as int,
                2 * WORLD_MAX as int,
            );
            lemma_fmul_mag(self.radius as int, self.radius as int, WORLD_MAX as int, WORLD_MAX as int);
        }
        let a = ray.direction().length_squared();
        let h = dot_product(ray.direction(), &origin_to_center);
        let c = origin_to_center.length_squared() - fx_mul(self.radius, self.radius);

        if a <= 0 {
            return (false, None);
        }
        let discriminant = fx_mul(h, h) - fx_mul(a, c);
        if discriminant < 0 {
            return (false, None);
        }

        let sqrtd = fx_sqrt(discriminant);
        let mut root = fx_div(h - sqrtd, a);

        if !ray_t.surrounds(root) {
            root = fx_div(h + sqrtd, a);
            if !ray_t.surrounds(root) {
                return (false, None);
            }
        }

        let p = ray.at(&root);
        if p.x > WORLD_MAX || p.x < -WORLD_MAX || p.y > WORLD_MAX || p.y < -WORLD_MAX || p.z
            > WORLD_MAX || p.z < -WORLD_MAX {
            return (false, None);
        }
        let outward_normal = p.sub(&self.center).div(self.radius);
        if outward_normal.x > NORMAL_MAX || outward_normal.x < -NORMAL_MAX || outward_normal.y
            > NORMAL_MAX || outward_normal.y < -NORMAL_MAX || outward_normal.z > NORMAL_MAX
            || outward_normal.z < -NORMAL_MAX {
            return (false, None);
        }
        let normal_ls = outward_normal.length_squared();
        if normal_ls < NORMAL_LS_MIN || normal_ls > NORMAL_LS_MAX {
            return (false, None);
        }
        proof {
            crate::common::vec3::lemma_dot_neg_neg(outward_normal);
        }

        let mut hit_record = HitRecord {
            t: root,
            normal: None,
            material: Rc::clone(&self.material),
            point: p,
            front_face: None,
        };
        hit_record.set_face_normal(ray, &outward_normal);

        (true, Some(hit_record))
    }
}

impl Hittable for Sphere {
    open spec fn wf(&self) -> bool {
        Sphere::wf(self)
    }

    fn hit(&self, ray: &Ray, ray_t: &Interval) -> (r: (bool, Option<HitRecord>)) {
        Sphere::hit(self, ray, ray_t)
    }
}

} // verus!
