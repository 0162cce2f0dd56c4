//! A list of primitives that is searched as one.
use crate::hittable::{HitRecord, Hittable};
use crate::nearest::{nearest_hit, primitives_of, scans_to};
use crate::ray::Ray;
use crate::scalar::Scalar;
use std::rc::Rc;
use vstd::prelude::*;

verus! {

/// Primitives in the order in which they were added.
pub struct HittableList<H: Hittable> {
    objects: Vec<Rc<H>>,
}

impl<H: Hittable> View for HittableList<H> {
    type V = Seq<H>;

    /// The primitives, first added first.
    closed spec fn view(&self) -> Seq<H> {
        primitives_of(self.objects@)
    }
}

impl<H: Hittable> HittableList<H> {
    /// The empty list.
    pub fn empty() -> (list: Self)
        ensures
            list@ == Seq::<H>::empty(),
    {
        let list = HittableList { objects: Vec::new() };
        assert(list@ =~= Seq::<H>::empty());
        list
    }

    /// Appends a primitive.
    pub fn add(&mut self, object: Rc<H>)
        ensures
            final(self)@ == old(self)@.push(*object),
    {
        self.objects.push(object);
        assert(self@ =~= old(self)@.push(*object));
    }

    /// The nearest hit of `ray` within `[t_min, t_max]` over all primitives,
    /// or `None` if no primitive reports one.
    ///
    /// The primitives are asked in order, each within `[t_min, closest]`,
    /// where `closest` is `t_max` until a hit is found and the parameter of
    /// the nearest hit from then on. A primitive may report a hit exactly at
    /// `closest`; such a hit does not replace the record held, so of two
    /// primitives met at the same parameter the one added first is reported.
    pub fn hit(&self, ray: &Ray, t_min: Scalar, t_max: Scalar) -> (found: Option<HitRecord>)
        ensures
            scans_to(self@, *ray, t_min, t_max, found),
            found matches Some(rec) ==> rec.t.within_spec(t_min, t_max),
            self@.len() == 0 ==> found is None,
    {
        nearest_hit(&self.objects, ray, t_min, t_max)
    }
}

} // verus!
