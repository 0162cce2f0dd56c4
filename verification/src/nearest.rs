//! Nearest-hit selection over a collection of primitives.
//!
//! The primitives are asked one after the other, each with the upper bound
//! tightened to the nearest hit found so far. What a primitive answers is up
//! to its implementation, so the scan is described as a relation: a sequence
//! of reports, one per primitive, each of which that primitive may give when
//! asked with the bound in force at its turn.
use crate::hittable::{HitRecord, Hittable};
use crate::ray::Ray;
use crate::scalar::Scalar;
use std::rc::Rc;
use vstd::prelude::*;

verus! {

/// `report` is an answer that `h` may give when asked for a hit of `ray`
/// within `[t_min, t_max]`.
pub open spec fn may_report<H: Hittable>(
    h: H,
    ray: Ray,
    t_min: Scalar,
    t_max: Scalar,
    report: Option<HitRecord>,
) -> bool {
    call_ensures(H::hit, (&h, &ray, t_min, t_max), report)
}

/// The record kept after the given reports have come in, in order: each
/// report replaces the record held when it is strictly nearer.
pub open spec fn nearest_of(reports: Seq<Option<HitRecord>>) -> Option<HitRecord>
    decreases reports.len(),
{
    if reports.len() == 0 {
        None
    } else {
        HitRecord::nearer_spec(nearest_of(reports.drop_last()), reports.last())
    }
}

/// The upper bound in force once `reports` have come in: the parameter of
/// the record kept, or `t_max` while there is none.
pub open spec fn bound_after(reports: Seq<Option<HitRecord>>, t_max: Scalar) -> Scalar {
    match nearest_of(reports) {
        Some(rec) => rec.t,
        None => t_max,
    }
}

/// `reports` is a run of the scan: primitive `i` was asked within
/// `[t_min, bound_after(reports[..i], t_max)]` and answered `reports[i]`.
pub open spec fn is_scan<H: Hittable>(
    primitives: Seq<H>,
    ray: Ray,
    t_min: Scalar,
    t_max: Scalar,
    reports: Seq<Option<HitRecord>>,
) -> bool {
    &&& reports.len() == primitives.len()
    &&& forall|i: int|
        0 <= i < primitives.len() ==> may_report(
            primitives[i],
            ray,
            t_min,
            bound_after(reports.take(i), t_max),
            #[trigger] reports[i],
        )
}

/// `found` is a possible result of scanning `primitives`.
pub open spec fn scans_to<H: Hittable>(
    primitives: Seq<H>,
    ray: Ray,
    t_min: Scalar,
    t_max: Scalar,
    found: Option<HitRecord>,
) -> bool {
    exists|reports: Seq<Option<HitRecord>>|
        #[trigger] is_scan(primitives, ray, t_min, t_max, reports) && found == nearest_of(reports)
}

/// What is left of the report `wide` once the upper bound is lowered to
/// `bound`: the same record if its parameter is still within, else nothing.
pub open spec fn narrowed(wide: Option<HitRecord>, bound: Scalar) -> Option<HitRecord> {
    match wide {
        Some(rec) => if rec.t.le_spec(bound) {
            wide
        } else {
            None
        },
        None => None,
    }
}

/// `h` reports its nearest intersection with `ray` whatever the upper bound:
/// asked within `[t_min, bound]` for some `bound <= t_max`, it gives what it
/// gives within `[t_min, t_max]` if that is still within the bound, and
/// nothing otherwise. With `bound == t_max` this says that the answer within
/// `[t_min, t_max]` is unique.
pub open spec fn answers_consistently<H: Hittable>(
    h: H,
    ray: Ray,
    t_min: Scalar,
    t_max: Scalar,
) -> bool {
    forall|bound: Scalar, wide: Option<HitRecord>, tight: Option<HitRecord>|
        bound.le_spec(t_max) && #[trigger] may_report(h, ray, t_min, t_max, wide)
            && #[trigger] may_report(h, ray, t_min, bound, tight) ==> tight == narrowed(wide, bound)
}

/// `found` is the first record of least parameter among `hits`, or `None`
/// when there is no record among them.
pub open spec fn is_first_nearest(hits: Seq<Option<HitRecord>>, found: Option<HitRecord>) -> bool {
    match found {
        None => forall|i: int| 0 <= i < hits.len() ==> #[trigger] hits[i] is None,
        Some(rec) => exists|i: int|
            {
                &&& 0 <= i < hits.len()
                &&& #[trigger] hits[i] == Some(rec)
                &&& forall|j: int|
                    0 <= j < hits.len() ==> (#[trigger] hits[j] matches Some(other)
                        ==> rec.t.le_spec(other.t))
                &&& forall|j: int|
                    0 <= j < i ==> (#[trigger] hits[j] matches Some(other) ==> rec.t.lt_spec(
                        other.t,
                    ))
            },
    }
}

/// Keeping the strictly nearer record, report after report, selects the
/// first record of least parameter, provided no parameter is a NaN.
pub proof fn lemma_nearest_of_is_first_nearest(hits: Seq<Option<HitRecord>>)
    requires
        forall|i: int|
            0 <= i < hits.len() ==> (#[trigger] hits[i] matches Some(rec) ==> !rec.t.is_nan_spec()),
    ensures
        is_first_nearest(hits, nearest_of(hits)),
    decreases hits.len(),
{
    if hits.len() > 0 {
        let front = hits.drop_last();
        let n = front.len() as int;
        assert forall|i: int| 0 <= i < n implies front[i] == hits[i] by {}
        lemma_nearest_of_is_first_nearest(front);
        if let Some(held) = nearest_of(front) {
            // where the record held so far stands among the earlier hits
            let at = choose|i: int|
                {
                    &&& 0 <= i < n
                    &&& #[trigger] front[i] == Some(held)
                    &&& forall|j: int|
                        0 <= j < n ==> (#[trigger] front[j] matches Some(other)
                            ==> held.t.le_spec(other.t))
                    &&& forall|j: int|
                        0 <= j < i ==> (#[trigger] front[j] matches Some(other)
                            ==> held.t.lt_spec(other.t))
                };
            let kept = nearest_of(hits)->Some_0;
            // the record kept is at most every hit, and below every hit before it
            assert forall|j: int| 0 <= j < hits.len() implies (#[trigger] hits[j] matches Some(other)
                ==> kept.t.le_spec(other.t)) by {}
            if kept == held {
                assert forall|j: int| 0 <= j < at implies (#[trigger] hits[j] matches Some(other)
                    ==> kept.t.lt_spec(other.t)) by {}
            } else {
                assert forall|j: int| 0 <= j < n implies (#[trigger] hits[j] matches Some(other)
                    ==> kept.t.lt_spec(other.t)) by {}
            }
        }
    }
}

/// Scanning with a tightening bound finds what asking every primitive
/// independently within `[t_min, t_max]` and keeping the first hit of least
/// parameter finds, as long as each primitive answers consistently.
///
/// `hits[i]` is the answer of primitive `i` when it is asked on its own.
pub proof fn lemma_scan_finds_nearest<H: Hittable>(
    primitives: Seq<H>,
    ray: Ray,
    t_min: Scalar,
    t_max: Scalar,
    found: Option<HitRecord>,
    hits: Seq<Option<HitRecord>>,
)
    requires
        scans_to(primitives, ray, t_min, t_max, found),
        hits.len() == primitives.len(),
        forall|i: int|
            0 <= i < primitives.len() ==> may_report(primitives[i], ray, t_min, t_max, #[trigger] hits[i]),
        forall|i: int|
            0 <= i < primitives.len() ==> answers_consistently(
                #[trigger] primitives[i],
                ray,
                t_min,
                t_max,
            ),
    ensures
        found == nearest_of(hits),
        is_first_nearest(hits, found),
{
    let reports = choose|reports: Seq<Option<HitRecord>>|
        #[trigger] is_scan(primitives, ray, t_min, t_max, reports) && found == nearest_of(reports);
    lemma_scan_prefix(primitives, ray, t_min, t_max, reports, hits, primitives.len() as int);
    assert(reports.take(reports.len() as int) =~= reports);
    assert(hits.take(hits.len() as int) =~= hits);
    lemma_nearest_of_is_first_nearest(hits);
}

/// After `k` primitives the scan holds what the first `k` independent
/// answers select.
proof fn lemma_scan_prefix<H: Hittable>(
    primitives: Seq<H>,
    ray: Ray,
    t_min: Scalar,
    t_max: Scalar,
    reports: Seq<Option<HitRecord>>,
    hits: Seq<Option<HitRecord>>,
    k: int,
)
    requires
        is_scan(primitives, ray, t_min, t_max, reports),
        hits.len() == primitives.len(),
        forall|i: int|
            0 <= i < primitives.len() ==> may_report(primitives[i], ray, t_min, t_max, #[trigger] hits[i]),
        forall|i: int|
            0 <= i < primitives.len() ==> answers_consistently(
                #[trigger] primitives[i],
                ray,
                t_min,
                t_max,
            ),
        0 <= k <= primitives.len(),
    ensures
        nearest_of(reports.take(k)) == nearest_of(hits.take(k)),
        nearest_of(hits.take(k)) matches Some(rec) ==> rec.t.within_spec(t_min, t_max),
    decreases k,
{
    if k > 0 {
        let j = k - 1;
        lemma_scan_prefix(primitives, ray, t_min, t_max, reports, hits, j);
        assert(reports.take(k).drop_last() =~= reports.take(j));
        assert(hits.take(k).drop_last() =~= hits.take(j));
    }
}

/// The primitives behind a vector of shared handles.
pub open spec fn primitives_of<H>(handles: Seq<Rc<H>>) -> Seq<H> {
    Seq::new(handles.len(), |i: int| *handles[i])
}

/// Scans `hittables` in order for the nearest hit of `ray` in
/// `[t_min, t_max]`.
pub(crate) fn nearest_hit<H: Hittable>(
    hittables: &Vec<Rc<H>>,
    ray: &Ray,
    t_min: Scalar,
    t_max: Scalar,
) -> (found: Option<HitRecord>)
    ensures
        scans_to(primitives_of(hittables@), *ray, t_min, t_max, found),
        found matches Some(rec) ==> rec.t.within_spec(t_min, t_max),
        hittables@.len() == 0 ==> found is None,
{
    let ghost primitives = primitives_of(hittables@);
    let ghost mut reports: Seq<Option<HitRecord>> = Seq::empty();
    let mut best: Option<HitRecord> = None;
    let mut i: usize = 0;
    while i < hittables.len()
        invariant
            i <= hittables.len(),
            primitives == primitives_of(hittables@),
            reports.len() == i,
            best == nearest_of(reports),
            forall|j: int|
                0 <= j < i ==> may_report(
                    primitives[j],
                    *ray,
                    t_min,
                    bound_after(reports.take(j), t_max),
                    #[trigger] reports[j],
                ),
            best matches Some(rec) ==> rec.t.within_spec(t_min, t_max),
            i == 0 ==> best is None,
        decreases hittables.len() - i,
    {
        let closest = match best {
            Some(rec) => rec.t,
            None => t_max,
        };
        let report = hittables[i].hit(ray, t_min, closest);
        proof {
            let longer = reports.push(report);
            assert(longer.take(i as int) =~= reports);
            assert forall|j: int| 0 <= j < i implies longer.take(j) == reports.take(j) by {}
            reports = longer;
        }
        best = HitRecord::nearer(best, report);
        i = i + 1;
    }
    proof {
        assert(is_scan(primitives, *ray, t_min, t_max, reports));
    }
    best
}

} // verus!
