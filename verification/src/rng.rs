//! Source of randomness for the jam model.

use vstd::prelude::*;

verus! {

/// Relies on `rand::random_range` over `0..bound`: a uniform draw from a
/// non-empty integer range lies strictly below the upper bound.  Nothing
/// more is assumed of the draw.
#[verifier::external_body]
pub(crate) fn random_below(bound: u64) -> (r: u64)
    requires
        1 <= bound,
    ensures
        r < bound,
{
    rand::random_range(0..bound)
}

} // verus!
