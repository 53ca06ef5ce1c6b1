//! A ray: an origin point and a direction vector, not necessarily of unit
//! length, evaluated at a scalar parameter.

use vstd::prelude::*;

use crate::common::fixed::fx_mul;
use crate::common::vec3::{add_spec, in_range, scale_spec, Point3, Vector3};
use crate::common::{RAY_T_MAX, WORLD_MAX};

verus! {

#[derive(Clone, Copy, PartialEq, Eq, Structural, Debug)]
pub struct Ray {
    pub origin: Point3,
    pub direction: Vector3,
}

/// Origin and direction both inside the representable world.
pub open spec fn ray_wf(r: Ray) -> bool {
    in_range(r.origin, WORLD_MAX as int) && in_range(r.direction, WORLD_MAX as int)
}

/// The point `origin + t * direction`.
pub open spec fn ray_at_spec(r: Ray, t: int) -> Point3 {
    add_spec(r.origin, scale_spec(r.direction, t))
}

impl Ray {
    /// The degenerate ray at the origin with no direction.
    pub fn new() -> (r: Ray)
        ensures
            r.origin.x == 0 && r.origin.y == 0 && r.origin.z == 0,
            r.direction.x == 0 && r.direction.y == 0 && r.direction.z == 0,
            ray_wf(r),
    {
        Ray { origin: Point3::new(), direction: Vector3::new() }
    }

    pub fn build(origin: &Point3, direction: &Vector3) -> (r: Ray)
        ensures
            r.origin == *origin,
            r.direction == *direction,
    {
        Ray { origin: *origin, direction: *direction }
    }

    pub fn origin(&self) -> (r: &Point3)
        ensures
            *r == self.origin,
    {
        &self.origin
    }

    pub fn direction(&self) -> (r: &Vector3)
        ensures
            *r == self.direction,
    {
        &self.direction
    }

    /// The point the ray reaches at parameter `t`.
    pub fn at(&self, t: &i128) -> (r: Point3)
        requires
            ray_wf(*self),
            -RAY_T_MAX <= *t <= RAY_T_MAX,
        ensures
            r == ray_at_spec(*self, *t as int),
    {
        let d = &self.direction;
        Point3 {
            x: self.origin.x + fx_mul(d.x, *t),
            y: self.origin.y + fx_mul(d.y, *t),
            z: self.origin.z + fx_mul(d.z, *t),
        }
    }
}

} // verus!
