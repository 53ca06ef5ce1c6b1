//! Row-major three-by-three matrices of fixed-point vectors, used to carry
//! the camera's orthonormal view basis.

use vstd::prelude::*;

use crate::common::fixed::{FX_DIV_MAX, FX_MUL_MAX};
use crate::common::vec3::{
    add_spec, dot, dot_product, in_range, neg_spec, sub_spec, Vector3,
};

verus! {

#[derive(Clone, Copy, PartialEq, Eq, Structural, Debug)]
pub struct Matrix3 {
    pub u: Vector3,
    pub v: Vector3,
    pub w: Vector3,
}

/// Every component of every row within `m` in magnitude.
pub open spec fn mat_in_range(m: Matrix3, bound: int) -> bool {
    in_range(m.u, bound) && in_range(m.v, bound) && in_range(m.w, bound)
}

impl Matrix3 {
    /// The zero matrix.
    pub fn new() -> (r: Matrix3)
        ensures
            r.u == (Vector3 { x: 0, y: 0, z: 0 }),
            r.v == (Vector3 { x: 0, y: 0, z: 0 }),
            r.w == (Vector3 { x: 0, y: 0, z: 0 }),
    {
        Matrix3 { u: Vector3::new(), v: Vector3::new(), w: Vector3::new() }
    }

    pub fn build(u: &Vector3, v: &Vector3, w: &Vector3) -> (r: Matrix3)
        ensures
            r.u == *u && r.v == *v && r.w == *w,
    {
        Matrix3 { u: *u, v: *v, w: *w }
    }

    pub fn build_explicit(u: (i128, i128, i128), v: (i128, i128, i128), w: (i128, i128, i128)) -> (r:
        Matrix3)
        ensures
            r.u == (Vector3 { x: u.0, y: u.1, z: u.2 }),
            r.v == (Vector3 { x: v.0, y: v.1, z: v.2 }),
            r.w == (Vector3 { x: w.0, y: w.1, z: w.2 }),
    {
        Matrix3 {
            u: Vector3::build(u.0, u.1, u.2),
            v: Vector3::build(v.0, v.1, v.2),
            w: Vector3::build(w.0, w.1, w.2),
        }
    }

    pub fn from(u: Vector3, v: Vector3, w: Vector3) -> (r: Matrix3)
        ensures
            r.u == u && r.v == v && r.w == w,
    {
        Matrix3 { u, v, w }
    }

    pub fn u(&self) -> (r: &Vector3)
        ensures
            *r == self.u,
    {
        &self.u
    }

    pub fn v(&self) -> (r: &Vector3)
        ensures
            *r == self.v,
    {
        &self.v
    }

    pub fn w(&self) -> (r: &Vector3)
        ensures
            *r == self.w,
    {
        &self.w
    }

    /// The row at `index`, counting from zero.  An index outside the three
    /// rows is a programming error and is excluded outright.
    pub fn index(&self, index: usize) -> (r: &Vector3)
        requires
            index < 3,
        ensures
            *r == if index == 0 {
                self.u
            } else if index == 1 {
                self.v
            } else {
                self.w
            },
    {
        if index == 0 {
            &self.u
        } else if index == 1 {
            &self.v
        } else {
            &self.w
        }
    }

    /// Componentwise sum.
    pub fn add(&self, other: &Matrix3) -> (r: Matrix3)
        requires
            mat_in_range(*self, FX_DIV_MAX as int),
            mat_in_range(*other, FX_DIV_MAX as int),
        ensures
            r.u == add_spec(self.u, other.u),
            r.v == add_spec(self.v, other.v),
            r.w == add_spec(self.w, other.w),
    {
        Matrix3 {
            u: self.u.add(&other.u),
            v: self.v.add(&other.v),
            w: self.w.add(&other.w),
        }
    }

    /// Componentwise difference.
    pub fn sub(&self, other: &Matrix3) -> (r: Matrix3)
        requires
            mat_in_range(*self, FX_DIV_MAX as int),
            mat_in_range(*other, FX_DIV_MAX as int),
        ensures
            r.u == sub_spec(self.u, other.u),
            r.v == sub_spec(self.v, other.v),
            r.w == sub_spec(self.w, other.w),
    {
        Matrix3 {
            u: self.u.sub(&other.u),
            v: self.v.sub(&other.v),
            w: self.w.sub(&other.w),
        }
    }

    /// Componentwise negation.
    pub fn neg(&self) -> (r: Matrix3)
        requires
            mat_in_range(*self, FX_DIV_MAX as int),
        ensures
            r.u == neg_spec(self.u),
            r.v == neg_spec(self.v),
            r.w == neg_spec(self.w),
    {
        Matrix3 { u: self.u.neg(), v: self.v.neg(), w: self.w.neg() }
    }

    /// The matrix applied to a column vector: one dot product per row.
    pub fn mul_vec(&self, rhs: &Vector3) -> (r: Vector3)
        requires
            mat_in_range(*self, FX_MUL_MAX as int),
            in_range(*rhs, FX_MUL_MAX as int),
        ensures
            r.x == dot(self.u, *rhs),
            r.y == dot(self.v, *rhs),
            r.z == dot(self.w, *rhs),
    {
        Vector3 {
            x: dot_product(&self.u, rhs),
            y: dot_product(&self.v, rhs),
            z: dot_product(&self.w, rhs),
        }
    }
}

} // verus!
