//! The one randomness primitive the game uses.

use vstd::prelude::*;
use rand::Rng;

verus! {

/// Relies on `rand::rng` and `rand::Rng::random_range`: the returned
/// sample lies in the given range, and the call cannot panic because
/// the range `0..bound` is non-empty. Nothing more is assumed: two
/// calls on the same bound may return different values.
#[verifier::external_body]
pub(crate) fn random_coord(bound: u32) -> (r: u32)
    requires
        bound > 0,
    ensures
        r < bound,
{
    rand::rng().random_range(0..bound)
}

} // verus!
