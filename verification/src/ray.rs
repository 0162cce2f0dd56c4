//! Rays: an origin and a direction.
use crate::scalar::Scalar;
use crate::vec3::{Point3, Vec3};
use vstd::prelude::*;

verus! {

/// The points `origin + t * direction`, one for each parameter `t`.
#[derive(Clone, Copy, Debug)]
pub struct Ray {
    pub origin: Point3,
    pub direction: Vec3,
}

impl Ray {
    /// Origin and direction equal coordinate by coordinate.
    pub open spec fn same_value(self, other: Ray) -> bool {
        self.origin.same_value(other.origin) && self.direction.same_value(other.direction)
    }

    /// The ray that starts at `origin` and runs along `direction`.
    pub fn new(origin: Point3, direction: Vec3) -> (ray: Ray)
        ensures
            ray == (Ray { origin, direction }),
    {
        Ray { origin, direction }
    }

    /// The ray from `(x, y, z)` along `(dx, dy, dz)`.
    pub fn n(x: Scalar, y: Scalar, z: Scalar, dx: Scalar, dy: Scalar, dz: Scalar) -> (ray: Ray)
        ensures
            ray.origin == (Vec3 { x, y, z }),
            ray.direction == (Vec3 { x: dx, y: dy, z: dz }),
    {
        Ray { origin: Point3::new(x, y, z), direction: Vec3::new(dx, dy, dz) }
    }

    /// The ray with the given integer coordinates, each converted exactly.
    pub fn ni(x: i32, y: i32, z: i32, dx: i32, dy: i32, dz: i32) -> (ray: Ray)
        ensures
            ray.origin.x.is_integer(x as int),
            ray.origin.y.is_integer(y as int),
            ray.origin.z.is_integer(z as int),
            ray.direction.x.is_integer(dx as int),
            ray.direction.y.is_integer(dy as int),
            ray.direction.z.is_integer(dz as int),
    {
        Ray::n(
            Scalar::from_i32(x),
            Scalar::from_i32(y),
            Scalar::from_i32(z),
            Scalar::from_i32(dx),
            Scalar::from_i32(dy),
            Scalar::from_i32(dz),
        )
    }
}

impl PartialEq for Ray {
    fn eq(&self, other: &Ray) -> (r: bool) {
        self.origin == other.origin && self.direction == other.direction
    }
}

impl vstd::std_specs::cmp::PartialEqSpecImpl for Ray {
    open spec fn obeys_eq_spec() -> bool {
        true
    }

    open spec fn eq_spec(&self, other: &Ray) -> bool {
        self.same_value(*other)
    }
}

} // verus!
