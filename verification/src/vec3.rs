//! Triples of binary64 numbers: points, directions and colours.
use crate::scalar::Scalar;
use vstd::prelude::*;

verus! {

/// Three coordinates. The same type serves as a point in space, as a
/// direction and as an RGB colour.
#[derive(Clone, Copy, Debug)]
pub struct Vec3 {
    pub x: Scalar,
    pub y: Scalar,
    pub z: Scalar,
}

/// A location in space.
pub type Point3 = Vec3;

/// Red, green and blue intensities.
pub type Color = Vec3;

impl Vec3 {
    /// Coordinate-wise IEEE 754 equality: no tolerance, the two zeros are
    /// equal, and a vector with a NaN coordinate equals nothing.
    pub open spec fn same_value(self, other: Vec3) -> bool {
        &&& self.x.same_value(other.x)
        &&& self.y.same_value(other.y)
        &&& self.z.same_value(other.z)
    }

    /// The vector with the opposite coordinates.
    pub open spec fn neg_spec(self) -> Vec3 {
        Vec3 { x: self.x.neg_spec(), y: self.y.neg_spec(), z: self.z.neg_spec() }
    }

    /// The vector whose three coordinates are positive zero.
    pub open spec fn zero_spec() -> Vec3 {
        Vec3 { x: Scalar { bits: 0 }, y: Scalar { bits: 0 }, z: Scalar { bits: 0 } }
    }

    /// The vector with the given coordinates.
    pub fn new(x: Scalar, y: Scalar, z: Scalar) -> (v: Vec3)
        ensures
            v == (Vec3 { x, y, z }),
    {
        Vec3 { x, y, z }
    }

    /// The origin: all three coordinates are positive zero.
    pub fn zero() -> (v: Vec3)
        ensures
            v == Vec3::zero_spec(),
    {
        Vec3::new(Scalar::zero(), Scalar::zero(), Scalar::zero())
    }

    /// Unary minus: every coordinate changes sign and nothing else, so the
    /// result is exact.
    pub fn neg(&self) -> (r: Vec3)
        ensures
            r == self.neg_spec(),
            r.x.units() == -self.x.units(),
            r.y.units() == -self.y.units(),
            r.z.units() == -self.z.units(),
    {
        Vec3 { x: self.x.neg(), y: self.y.neg(), z: self.z.neg() }
    }
}

impl PartialEq for Vec3 {
    fn eq(&self, other: &Vec3) -> (r: bool) {
        self.x == other.x && self.y == other.y && self.z == other.z
    }
}

impl vstd::std_specs::cmp::PartialEqSpecImpl for Vec3 {
    open spec fn obeys_eq_spec() -> bool {
        true
    }

    open spec fn eq_spec(&self, other: &Vec3) -> bool {
        self.same_value(*other)
    }
}

} // verus!
