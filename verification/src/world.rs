//! The scene: an ordered collection of primitives.
use crate::hittable::{HitRecord, Hittable};
use crate::nearest::{nearest_hit, primitives_of, scans_to};
use crate::ray::Ray;
use crate::scalar::Scalar;
use std::rc::Rc;
use vstd::prelude::*;

verus! {

/// The primitives of a scene, in the order in which they were added.
pub struct World<H: Hittable> {
    hittables: Vec<Rc<H>>,
}

impl<H: Hittable> View for World<H> {
    type V = Seq<H>;

    /// The primitives, first added first.
    closed spec fn view(&self) -> Seq<H> {
        primitives_of(self.hittables@)
    }
}

impl<H: Hittable> World<H> {
    /// A scene without primitives.
    pub fn empty() -> (world: Self)
        ensures
            world@ == Seq::<H>::empty(),
    {
        let world = World { hittables: Vec::new() };
        assert(world@ =~= Seq::<H>::empty());
        world
    }

    /// Appends a primitive to the scene.
    pub fn add(&mut self, hittable: Rc<H>)
        ensures
            final(self)@ == old(self)@.push(*hittable),
    {
        self.hittables.push(hittable);
        assert(self@ =~= old(self)@.push(*hittable));
    }

    /// The nearest hit of `ray` within `[t_min, t_max]` over all primitives,
    /// or `None` if no primitive reports one.
    ///
    /// The primitives are asked in order, each within `[t_min, closest]`,
    /// where `closest` is `t_max` until a hit is found and the parameter of
    /// the nearest hit from then on. A primitive may report a hit exactly at
    /// `closest`; such a hit does not replace the record held, so of two
    /// primitives met at the same parameter the one added first is reported.
    pub fn trace_ray(&self, ray: &Ray, t_min: Scalar, t_max: Scalar) -> (found: Option<HitRecord>)
        ensures
            scans_to(self@, *ray, t_min, t_max, found),
            found matches Some(rec) ==> rec.t.within_spec(t_min, t_max),
            self@.len() == 0 ==> found is None,
    {
        nearest_hit(&self.hittables, ray, t_min, t_max)
    }
}

} // verus!
