//! Progress of a render that counts its scan lines down.
use vstd::prelude::*;

verus! {

/// The share of the work that is done, in percent, when `remaining` of
/// `total` lines are still to do: `100 - remaining * 100 / total`, where the
/// division drops the fraction.
pub fn progress_percent(remaining: u32, total: u32) -> (percent: u32)
    requires
        0 < total,
        remaining <= total,
    ensures
        percent == 100 - (remaining * 100) / (total as int),
        percent <= 100,
{
    let left: u64 = (remaining as u64) * 100 / (total as u64);
    assert(left <= 100) by (nonlinear_arith)
        requires
            left == (remaining * 100) / (total as int),
            0 < total,
            0 <= remaining <= total,
    ;
    100 - (left as u32)
}

} // verus!
