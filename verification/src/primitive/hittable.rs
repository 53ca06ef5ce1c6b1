//! The surface-intersection capability and the record a successful
//! intersection produces.

use vstd::prelude::*;

use std::rc::Rc;

use crate::common::interval::Interval;
use crate::common::ray::{ray_wf, Ray};
use crate::common::vec3::{dot, in_range, neg_spec, Point3, Vector3};
use crate::common::{NORMAL_LS_MAX, NORMAL_LS_MIN, NORMAL_MAX, RAY_T_MAX, WORLD_MAX};
use crate::materials::{material_wf, MatRc};

verus! {

/// What an intersection test produces on success.  The normal always
/// opposes the incoming ray; `front_face` records whether the geometric
/// outward normal already did so before correction.
pub struct HitRecord {
    pub point: Point3,
    pub normal: Option<Vector3>,
    pub material: MatRc,
    pub t: i128,
    pub front_face: Option<bool>,
}

/// The normal stored in a completed record.
pub open spec fn rec_normal(rec: HitRecord) -> Vector3 {
    rec.normal.unwrap()
}

impl HitRecord {
    /// A completed, well-formed record: the hit point and parameter lie in
    /// the representable world, the normal is set and unit length up to
    /// rounding both in its components and in its squared length, the
    /// orientation flag is set, and the material parameters are sane.
    pub open spec fn wf(&self) -> bool {
        &&& in_range(self.point, WORLD_MAX as int)
        &&& -RAY_T_MAX <= self.t <= RAY_T_MAX
        &&& self.normal is Some
        &&& in_range(rec_normal(*self), NORMAL_MAX as int)
        &&& NORMAL_LS_MIN as int <= dot(rec_normal(*self), rec_normal(*self)) <= NORMAL_LS_MAX as int
        &&& self.front_face is Some
        &&& material_wf(*self.material)
    }

    /// The surface normal; requesting it from a record that was never
    /// completed is a programming error and is excluded outright.
    pub fn normal(&self) -> (r: Vector3)
        requires
            self.normal is Some,
        ensures
            r == rec_normal(*self),
    {
        match &self.normal {
            Some(n) => *n,
            None => Vector3::new(),
        }
    }

    pub fn point(&self) -> (r: Vector3)
        ensures
            r == self.point,
    {
        self.point
    }

    /// Another handle to the material governing this surface point.
    pub fn material(&self) -> (r: MatRc)
        ensures
            r == self.material,
    {
        Rc::clone(&self.material)
    }

    /// Whether the geometric outward normal opposed the incoming ray;
    /// requesting the flag from a record that was never completed is a
    /// programming error and is excluded outright.
    pub fn front_face(&self) -> (r: bool)
        requires
            self.front_face is Some,
        ensures
            r == self.front_face.unwrap(),
    {
        match &self.front_face {
            Some(f) => *f,
            None => false,
        }
    }

    /// Orients the stored normal against the incoming ray: the outward
    /// normal is kept when it opposes the ray and flipped otherwise, and
    /// the choice is recorded in `front_face`.
    pub fn set_face_normal(&mut self, ray: &Ray, outward_normal: &Vector3)
        requires
            in_range(old(self).point, WORLD_MAX as int),
            in_range(*outward_normal, NORMAL_MAX as int),
            ray_wf(*ray),
        ensures
            final(self).front_face == Some(dot(ray.direction, *outward_normal) < 0),
            final(self).normal == Some(
                if dot(ray.direction, *outward_normal) < 0 {
                    *outward_normal
                } else {
                    neg_spec(*outward_normal)
                },
            ),
            final(self).point == old(self).point,
            final(self).t == old(self).t,
            final(self).material == old(self).material,
    {
        let front = crate::common::vec3::dot_product(ray.direction(), outward_normal) < 0;
        if front {
            self.normal = Some(*outward_normal);
        } else {
            self.normal = Some(outward_normal.neg());
        }
        self.front_face = Some(front);
    }
}

/// The surface-intersection capability: a test against a ray over a range
/// of valid parameters, returning whether anything was hit and the record
/// of the nearest valid hit.
pub trait Hittable {
    spec fn wf(&self) -> bool;

    fn hit(&self, ray: &Ray, ray_t: &Interval) -> (r: (bool, Option<HitRecord>))
        requires
            self.wf(),
            ray_wf(*ray),
            -RAY_T_MAX <= ray_t.min,
            ray_t.max <= RAY_T_MAX,
        ensures
            r.0 == (r.1 is Some),
            r.1 matches Some(rec) ==> rec.wf() && ray_t.surrounds_spec(rec.t as int),
    ;
}

} // verus!
