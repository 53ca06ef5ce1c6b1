//! The scene composite: an insertion-ordered collection of spheres tested
//! by delegation, keeping the nearest hit found so far and shrinking the
//! valid range accordingly, so earlier members win exact ties.
//!
//! Membership is the closed set of sphere primitives rather than arbitrary
//! trait objects, which the verifier does not dispatch through; the
//! `Hittable` trait keeps the capability contract open, but heterogeneous
//! members and composites nested inside composites are not expressible
//! here.

use vstd::prelude::*;

use crate::common::interval::Interval;
use crate::common::ray::{ray_at_spec, ray_wf, Ray};
use crate::common::{RAY_T_MAX, WORLD_MAX};
use crate::primitive::hittable::{HitRecord, Hittable};
use crate::primitive::sphere::{
    lemma_sphere_hit_interval, sphere_face, sphere_hit_t, sphere_normal, sphere_record, Sphere,
};

verus! {

pub struct HittableList {
    pub objects: Vec<Sphere>,
}

/// The winner of the composite traversal over `objs`: the index and
/// parameter of the surviving hit.  Each member is tested against the
/// range shrunk to the best parameter the members before it produced, so
/// a later member only replaces an earlier one by a strictly smaller
/// parameter.
pub open spec fn list_hit_t(objs: Seq<Sphere>, ray: Ray, tmin: int, tmax: int) -> Option<
    (int, int),
>
    decreases objs.len(),
{
    if objs.len() == 0 {
        None
    } else {
        let last = objs.last();
        let last_idx = objs.len() - 1;
        match list_hit_t(objs.drop_last(), ray, tmin, tmax) {
            None => match sphere_hit_t(last, ray, tmin, tmax) {
                None => None,
                Some(t) => Some((last_idx as int, t)),
            },
            Some(jt) => match sphere_hit_t(last, ray, tmin, jt.1) {
                None => Some(jt),
                Some(t) => Some((last_idx as int, t)),
            },
        }
    }
}

impl HittableList {
    /// Every member inside the ranges the intersection arithmetic covers.
    pub open spec fn wf(&self) -> bool {
        forall|i: int| 0 <= i < self.objects@.len() ==> (#[trigger] self.objects@[i]).wf()
    }

    /// The empty scene.
    pub fn new() -> (r: HittableList)
        ensures
            r.objects@.len() == 0,
            r.wf(),
    {
        HittableList { objects: Vec::new() }
    }

    /// A scene holding one surface.
    pub fn build(object: Sphere) -> (r: HittableList)
        requires
            object.wf(),
        ensures
            r.objects@.len() == 1,
            r.objects@[0] == object,
            r.wf(),
    {
        let mut objects = Vec::new();
        objects.push(object);
        HittableList { objects }
    }

    /// Appends a surface; order matters only for exact ties.
    pub fn add(&mut self, object: Sphere)
        requires
            object.wf(),
        ensures
            final(self).objects@ == old(self).objects@.push(object),
            old(self).wf() ==> final(self).wf(),
    {
        self.objects.push(object);
    }

    /// Removes every surface.
    pub fn clear(&mut self)
        ensures
            final(self).objects@.len() == 0,
            final(self).wf(),
    {
        self.objects.clear();
    }

    /// The nearest valid hit among all members: the traversal keeps a
    /// shrinking upper bound equal to the closest parameter found so far,
    /// and a strictly closer hit replaces the running record.
    pub fn hit(&self, ray: &Ray, ray_t: &Interval) -> (r: (bool, Option<HitRecord>))
        requires
            self.wf(),
            ray_wf(*ray),
            -RAY_T_MAX <= ray_t.min,
            ray_t.max <= RAY_T_MAX,
        ensures
            r.0 == (r.1 is Some),
            r.0 == (list_hit_t(self.objects@, *ray, ray_t.min as int, ray_t.max as int)
                is Some),
            r.1 matches Some(rec) ==> {
                &&& list_hit_t(self.objects@, *ray, ray_t.min as int, ray_t.max as int)
                    matches Some(jt)
                &&& 0 <= jt.0 < self.objects@.len()
                &&& jt.1 == rec.t as int
                &&& sphere_hit_t(self.objects@[jt.0], *ray, ray_t.min as int, ray_t.max as int)
                    == Some(rec.t as int)
                &&& forall|k: int|
                    0 <= k < self.objects@.len() && (#[trigger] sphere_hit_t(
                        self.objects@[k],
                        *ray,
                        ray_t.min as int,
                        ray_t.max as int,
                    )) is Some ==> sphere_hit_t(
                        self.objects@[k],
                        *ray,
                        ray_t.min as int,
                        ray_t.max as int,
                    ).unwrap() >= rec.t
                &&& rec == sphere_record(self.objects@[jt.0], *ray, rec.t as int)
                &&& rec.point == ray_at_spec(*ray, rec.t as int)
                &&& rec.normal == Some(sphere_normal(self.objects@[jt.0], *ray, rec.t as int))
                &&& rec.front_face == Some(sphere_face(self.objects@[jt.0], *ray, rec.t as int))
                &&& rec.material == self.objects@[jt.0].material
                &&& rec.wf()
                &&& ray_t.surrounds_spec(rec.t as int)
            },
            r.1 is None ==> forall|k: int|
                0 <= k < self.objects@.len() ==> (#[trigger] sphere_hit_t(
                    self.objects@[k],
                    *ray,
                    ray_t.min as int,
                    ray_t.max as int,
                )) is None,
    {
        let ghost tmin = ray_t.min as int;
        let ghost tmax = ray_t.max as int;
        let mut hit_rec: Option<HitRecord> = None;
        let mut hit_anything = false;
        let mut closest_t = ray_t.max();
        let mut i: usize = 0;

        while i < self.objects.len()
            invariant
                self.wf(),
                ray_wf(*ray),
                -RAY_T_MAX <= ray_t.min,
                ray_t.max <= RAY_T_MAX,
                tmin == ray_t.min as int,
                tmax == ray_t.max as int,
                0 <= i <= self.objects@.len(),
                hit_anything == (hit_rec is Some),
                match list_hit_t(self.objects@.take(i as int), *ray, tmin, tmax) {
                    None => hit_rec is None && closest_t == ray_t.max,
                    Some(jt) => {
                        &&& hit_rec matches Some(rec)
                        &&& 0 <= jt.0 < i
                        &&& jt.1 == rec.t as int
                        &&& closest_t == rec.t
                        &&& rec == sphere_record(self.objects@[jt.0], *ray, rec.t as int)
                        &&& rec.point == ray_at_spec(*ray, rec.t as int)
                        &&& rec.normal == Some(sphere_normal(self.objects@[jt.0], *ray, rec.t as int))
                        &&& rec.front_face == Some(sphere_face(self.objects@[jt.0], *ray, rec.t as int))
                        &&& rec.material == self.objects@[jt.0].material
                        &&& rec.wf()
                        &&& ray_t.surrounds_spec(rec.t as int)
                    },
                },
            decreases self.objects@.len() - i,
        {
            let shrunk = Interval::build(ray_t.min(), closest_t);
            let object = &self.objects[i];
            let (hit, temp_rec) = object.hit(ray, &shrunk);
            proof {
                assert(self.objects@.take(i + 1 as int).drop_last() =~= self.objects@.take(
                    i as int,
                ));
                assert(self.objects@.take(i + 1 as int).last() == self.objects@[i as int]);
            }
            if hit {
                match temp_rec {
                    Some(rec_val) => {
                        closest_t = rec_val.t;
                        hit_rec = Some(rec_val);
                        hit_anything = true;
                    },
                    None => {
                        proof {
                            assert(false);
                        }
                    },
                }
            }
            i = i + 1;
        }
        proof {
            assert(self.objects@.take(self.objects@.len() as int) =~= self.objects@);
            lemma_list_hit_minimal(self.objects@, *ray, tmin, tmax);
        }
        (hit_anything, hit_rec)
    }
}

/// The composite always returns the hit with the smallest valid parameter
/// among all members, and an earlier member wins an exact tie: the law
/// the shrinking-range traversal is designed to satisfy.
pub proof fn lemma_list_hit_minimal(objs: Seq<Sphere>, ray: Ray, tmin: int, tmax: int)
    ensures
        match list_hit_t(objs, ray, tmin, tmax) {
            None => forall|k: int|
                0 <= k < objs.len() ==> (#[trigger] sphere_hit_t(objs[k], ray, tmin, tmax))
                    is None,
            Some(jt) => {
                &&& 0 <= jt.0 < objs.len()
                &&& sphere_hit_t(objs[jt.0], ray, tmin, tmax) == Some(jt.1)
                &&& tmin < jt.1 < tmax
                &&& forall|k: int|
                    0 <= k < objs.len() && (#[trigger] sphere_hit_t(objs[k], ray, tmin, tmax))
                        is Some ==> sphere_hit_t(objs[k], ray, tmin, tmax).unwrap() >= jt.1 && (k
                        < jt.0 ==> sphere_hit_t(objs[k], ray, tmin, tmax).unwrap() > jt.1)
            },
        },
    decreases objs.len(),
{
    if objs.len() > 0 {
        lemma_list_hit_minimal(objs.drop_last(), ray, tmin, tmax);
        let prefix = objs.drop_last();
        let last = objs.last();
        assert(forall|k: int| 0 <= k < prefix.len() ==> prefix[k] == objs[k]);
        match list_hit_t(prefix, ray, tmin, tmax) {
            None => {
            },
            Some(jt) => {
                lemma_sphere_hit_interval(last, ray, tmin, tmax, jt.1);
            },
        }
    }
}

/// No two members at distinct positions are hit at exactly the same
/// parameter over the given range.
pub open spec fn distinct_hits(objs: Seq<Sphere>, ray: Ray, tmin: int, tmax: int) -> bool {
    forall|i: int, j: int|
        0 <= i < objs.len() && 0 <= j < objs.len() && i != j && (#[trigger] sphere_hit_t(
            objs[i],
            ray,
            tmin,
            tmax,
        )) is Some && (#[trigger] sphere_hit_t(objs[j], ray, tmin, tmax)) is Some
            ==> sphere_hit_t(objs[i], ray, tmin, tmax).unwrap() != sphere_hit_t(
            objs[j],
            ray,
            tmin,
            tmax,
        ).unwrap()
}

/// Reordering the members of a composite changes neither whether anything
/// is hit, nor the hit parameter, nor the surface that is hit, provided
/// no two distinct members are hit at exactly the same parameter.
pub proof fn lemma_list_hit_reorder(
    objs1: Seq<Sphere>,
    objs2: Seq<Sphere>,
    ray: Ray,
    tmin: int,
    tmax: int,
)
    requires
        objs1.to_multiset() == objs2.to_multiset(),
        distinct_hits(objs1, ray, tmin, tmax),
    ensures
        match (list_hit_t(objs1, ray, tmin, tmax), list_hit_t(objs2, ray, tmin, tmax)) {
            (None, None) => true,
            (Some(jt1), Some(jt2)) => jt1.1 == jt2.1 && objs1[jt1.0] == objs2[jt2.0],
            _ => false,
        },
{
    broadcast use vstd::seq_lib::group_to_multiset_ensures;

    lemma_list_hit_minimal(objs1, ray, tmin, tmax);
    lemma_list_hit_minimal(objs2, ray, tmin, tmax);
    match (list_hit_t(objs1, ray, tmin, tmax), list_hit_t(objs2, ray, tmin, tmax)) {
        (None, None) => {
        },
        (None, Some(jt2)) => {
            let s = objs2[jt2.0];
            assert(objs2.contains(s));
            assert(objs1.to_multiset().count(s) > 0);
            assert(objs1.contains(s));
            let i = choose|i: int| 0 <= i < objs1.len() && objs1[i] == s;
            assert(sphere_hit_t(objs1[i], ray, tmin, tmax) is None);
            assert(false);
        },
        (Some(jt1), None) => {
            let s = objs1[jt1.0];
            assert(objs1.contains(s));
            assert(objs2.to_multiset().count(s) > 0);
            assert(objs2.contains(s));
            let i = choose|i: int| 0 <= i < objs2.len() && objs2[i] == s;
            assert(sphere_hit_t(objs2[i], ray, tmin, tmax) is None);
            assert(false);
        },
        (Some(jt1), Some(jt2)) => {
            let s1 = objs1[jt1.0];
            let s2 = objs2[jt2.0];
            assert(objs2.contains(s1)) by {
                assert(objs1.contains(s1));
                assert(objs2.to_multiset().count(s1) > 0);
            }
            assert(objs1.contains(s2)) by {
                assert(objs2.contains(s2));
                assert(objs1.to_multiset().count(s2) > 0);
            }
            let k2 = choose|k: int| 0 <= k < objs2.len() && objs2[k] == s1;
            let k1 = choose|k: int| 0 <= k < objs1.len() && objs1[k] == s2;
            assert(sphere_hit_t(objs2[k2], ray, tmin, tmax) == Some(jt1.1));
            assert(sphere_hit_t(objs1[k1], ray, tmin, tmax) == Some(jt2.1));
            assert(jt1.1 >= jt2.1);
            assert(jt2.1 >= jt1.1);
            // Two members of the first composite are hit at the same
            // parameter, so they stand at the same position.
            if k1 != jt1.0 {
                assert(sphere_hit_t(objs1[k1], ray, tmin, tmax).unwrap() != sphere_hit_t(
                    objs1[jt1.0],
                    ray,
                    tmin,
                    tmax,
                ).unwrap());
                assert(false);
            }
        },
    }
}

impl Hittable for HittableList {
    open spec fn wf(&self) -> bool {
        HittableList::wf(self)
    }

    fn hit(&self, ray: &Ray, ray_t: &Interval) -> (r: (bool, Option<HitRecord>)) {
        HittableList::hit(self, ray, ray_t)
    }
}

} // verus!
