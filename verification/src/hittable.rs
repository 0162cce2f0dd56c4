//! Intersection records and the capability of being hit by a ray.
use crate::ray::Ray;
use crate::scalar::Scalar;
use crate::vec3::{Point3, Vec3};
use vstd::prelude::*;

verus! {

/// Where and how a ray met a surface.
#[derive(Clone, Copy, Debug)]
pub struct HitRecord {
    /// The point where the ray met the surface.
    pub point: Point3,
    /// The surface normal at that point, turned against the incoming ray.
    pub normal: Vec3,
    /// The ray parameter of the point.
    pub t: Scalar,
    /// Whether the ray came from outside the surface.
    pub is_front_face: bool,
}

impl HitRecord {
    /// A record with every coordinate zero, at parameter zero, not front-facing.
    pub fn empty() -> (rec: HitRecord)
        ensures
            rec.point == Vec3::zero_spec(),
            rec.normal == Vec3::zero_spec(),
            rec.t.bits == 0,
            !rec.is_front_face,
    {
        HitRecord {
            point: Point3::zero(),
            normal: Vec3::zero(),
            t: Scalar::zero(),
            is_front_face: false,
        }
    }

    /// The record of a hit at `point`, reached at parameter `t`.
    ///
    /// `facing` is the dot product of the ray's direction with
    /// `outward_normal`. The hit is front-facing exactly when `facing` is
    /// below zero, that is when the ray runs against the outward normal. The
    /// stored normal is the outward normal for a front-facing hit and its
    /// negation otherwise, so that it always opposes the ray.
    pub fn new(point: Point3, t: Scalar, facing: Scalar, outward_normal: &Vec3) -> (rec: HitRecord)
        ensures
            rec.point == point,
            rec.t == t,
            rec.is_front_face == facing.lt_spec(Scalar { bits: 0 }),
            rec.normal == if rec.is_front_face {
                *outward_normal
            } else {
                outward_normal.neg_spec()
            },
    {
        let is_front_face = facing.lt(&Scalar::zero());
        HitRecord {
            t,
            point,
            is_front_face,
            normal: if is_front_face {
                *outward_normal
            } else {
                outward_normal.neg()
            },
        }
    }

    /// What a scan keeps after a primitive has answered: the candidate if
    /// there is one and it is strictly nearer than the record held so far (or
    /// nothing is held yet), else the record held so far.
    pub open spec fn nearer_spec(best: Option<HitRecord>, candidate: Option<HitRecord>) -> Option<
        HitRecord,
    > {
        match (best, candidate) {
            (Some(b), Some(c)) => if c.t.lt_spec(b.t) {
                candidate
            } else {
                best
            },
            (None, _) => candidate,
            (_, None) => best,
        }
    }

    /// Keeps the nearer of two optional records; on equal parameters, and
    /// whenever a parameter is a NaN, the one held so far stays.
    pub fn nearer(best: Option<HitRecord>, candidate: Option<HitRecord>) -> (kept: Option<HitRecord>)
        ensures
            kept == Self::nearer_spec(best, candidate),
    {
        match (best, candidate) {
            (Some(b), Some(c)) => if c.t.lt(&b.t) {
                candidate
            } else {
                best
            },
            (None, _) => candidate,
            (_, None) => best,
        }
    }
}

/// A primitive that can report where a ray meets it.
///
/// What is proved of a scan over primitives rests on what `hit` promises
/// here. That a scan finds the nearest of all hits holds for primitives that
/// moreover answer the same way however the upper bound is chosen; see
/// `answers_consistently` in the module `nearest`.
pub trait Hittable {
    /// The nearest intersection of `ray` with this primitive whose parameter
    /// lies in `[t_min, t_max]`, or `None` if there is none. A reported
    /// parameter is never outside the interval and never a NaN.
    ///
    /// A primitive that does not say where it is met is never hit.
    #[allow(unused_variables)]
    fn hit(&self, ray: &Ray, t_min: Scalar, t_max: Scalar) -> (hit: Option<HitRecord>)
        ensures
            hit matches Some(rec) ==> rec.t.within_spec(t_min, t_max),
    {
        None
    }
}

} // verus!
