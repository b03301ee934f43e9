//! The library's one source of randomness.

use vstd::prelude::*;

verus! {

/// Relies on `rand::random_range` over `0..bound`: the drawn value lies in
/// the half-open range. The empty range, on which it panics, is excluded by
/// `requires`. Nothing else is assumed: two calls may differ.
#[verifier::external_body]
pub(crate) fn random_below(bound: u64) -> (r: u64)
    requires
        bound > 0,
    ensures
        r < bound,
{
    rand::random_range(0..bound)
}

} // verus!
