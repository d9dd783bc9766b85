//! Randomness, behind trusted wrappers: every random draw the library makes
//! goes through one of these, and nothing is assumed of the result beyond
//! the range it falls in.

use vstd::prelude::*;

verus! {

/// Relies on `rand::random_range` (over the inclusive range `lo..=hi`, which
/// is nonempty because `lo <= hi`): returns a uniformly distributed value of
/// that range. Only membership in the range is promised.
#[verifier::external_body]
pub(crate) fn random_in_range(lo: i64, hi: i64) -> (r: i64)
    requires
        lo <= hi,
    ensures
        lo <= r <= hi,
{
    rand::random_range(lo..=hi)
}

/// Relies on `rand::random_range` (over the range `0..bound`, which is
/// nonempty because `bound > 0`): returns a uniformly distributed index
/// below `bound`. Only the bound is promised.
#[verifier::external_body]
pub(crate) fn random_index(bound: usize) -> (r: usize)
    requires
        bound > 0,
    ensures
        r < bound,
{
    rand::random_range(0..bound)
}

} // verus!
