//! Spheres, and the choice between the two roots of the intersection equation.
use crate::scalar::Scalar;
use crate::vec3::{Point3, Vec3};
use vstd::prelude::*;

verus! {

/// The surface of all points at distance `radius` from `center`.
///
/// A sphere is meant to have a positive radius. Nothing here refuses another
/// radius; what a ray then meets is not defined.
#[derive(Clone, Copy, Debug)]
pub struct Sphere {
    pub center: Point3,
    pub radius: Scalar,
}

impl Sphere {
    /// Centre and radius equal as numbers.
    pub open spec fn same_value(self, other: Sphere) -> bool {
        self.center.same_value(other.center) && self.radius.same_value(other.radius)
    }

    /// The root that counts as the hit. See [`Sphere::nearest_root`].
    pub open spec fn nearest_root_spec(
        discriminant: Scalar,
        near: Scalar,
        far: Scalar,
        t_min: Scalar,
        t_max: Scalar,
    ) -> Option<Scalar> {
        if discriminant.lt_spec(Scalar { bits: 0 }) {
            None
        } else if near.within_spec(t_min, t_max) {
            Some(near)
        } else if far.within_spec(t_min, t_max) {
            Some(far)
        } else {
            None
        }
    }

    /// The sphere around `center` with the given radius.
    pub fn new(center: Point3, radius: Scalar) -> (sphere: Sphere)
        ensures
            sphere == (Sphere { center, radius }),
    {
        Sphere { center, radius }
    }

    /// The sphere around `(x, y, z)` with the given radius.
    pub fn n(x: Scalar, y: Scalar, z: Scalar, radius: Scalar) -> (sphere: Sphere)
        ensures
            sphere == (Sphere { center: Vec3 { x, y, z }, radius }),
    {
        Sphere { center: Point3::new(x, y, z), radius }
    }

    /// The sphere around the point with the given integer coordinates, each
    /// converted exactly.
    pub fn ni(x: i32, y: i32, z: i32, radius: Scalar) -> (sphere: Sphere)
        ensures
            sphere.center.x.is_integer(x as int),
            sphere.center.y.is_integer(y as int),
            sphere.center.z.is_integer(z as int),
            sphere.radius == radius,
    {
        Sphere::n(Scalar::from_i32(x), Scalar::from_i32(y), Scalar::from_i32(z), radius)
    }

    /// Chooses the ray parameter at which a ray hits the sphere within
    /// `[t_min, t_max]`.
    ///
    /// For a ray `O + t D` and a sphere of centre `C` and radius `r`, with
    /// `oc = O - C`, the caller supplies
    /// `discriminant = (oc . D)^2 - (D . D) (oc . oc - r^2)` and the two
    /// roots `near = (-(oc . D) - sqrt(discriminant)) / (D . D)` and
    /// `far = (-(oc . D) + sqrt(discriminant)) / (D . D)`.
    ///
    /// A negative discriminant means that the ray misses the sphere. Else the
    /// nearer root is the hit if it lies in the interval, the farther root if
    /// only that one does, and there is no hit if neither does. A root that
    /// is a NaN lies in no interval: a degenerate direction or an overflow in
    /// the caller's arithmetic yields no hit rather than a record without a
    /// position.
    pub fn nearest_root(
        discriminant: Scalar,
        near: Scalar,
        far: Scalar,
        t_min: Scalar,
        t_max: Scalar,
    ) -> (root: Option<Scalar>)
        ensures
            root == Self::nearest_root_spec(discriminant, near, far, t_min, t_max),
            root is Some <==> !discriminant.lt_spec(Scalar { bits: 0 }) && (near.within_spec(
                t_min,
                t_max,
            ) || far.within_spec(t_min, t_max)),
            root matches Some(t) ==> t.within_spec(t_min, t_max),
    {
        if discriminant.lt(&Scalar::zero()) {
            None
        } else if near.within(&t_min, &t_max) {
            Some(near)
        } else if far.within(&t_min, &t_max) {
            Some(far)
        } else {
            None
        }
    }
}

/// Lowering the upper bound never makes a sphere report another root: the
/// root chosen within `[t_min, bound]` is the root chosen within
/// `[t_min, t_max]` if that is at most `bound`, and none otherwise. This
/// holds whenever the roots are in order, or one of them is a NaN.
pub proof fn lemma_nearest_root_narrows(
    discriminant: Scalar,
    near: Scalar,
    far: Scalar,
    t_min: Scalar,
    t_max: Scalar,
    bound: Scalar,
)
    requires
        near.le_spec(far) || near.is_nan_spec() || far.is_nan_spec(),
        bound.le_spec(t_max),
    ensures
        Sphere::nearest_root_spec(discriminant, near, far, t_min, bound) == (
        match Sphere::nearest_root_spec(discriminant, near, far, t_min, t_max) {
            Some(t) => if t.le_spec(bound) {
                Some(t)
            } else {
                None
            },
            None => None,
        }),
{
}

impl PartialEq for Sphere {
    fn eq(&self, other: &Sphere) -> (r: bool) {
        self.center == other.center && self.radius == other.radius
    }
}

impl vstd::std_specs::cmp::PartialEqSpecImpl for Sphere {
    open spec fn obeys_eq_spec() -> bool {
        true
    }

    open spec fn eq_spec(&self, other: &Sphere) -> bool {
        self.same_value(*other)
    }
}

} // verus!
