use vstd::prelude::*;

use rand::Rng;

verus! {

/// A number drawn from `0..bound` by the thread's random number generator.
///
/// Calls `rand::thread_rng().gen_range(0..bound)`. The rand source asserts
/// that the range is not empty, hence `bound > 0`; the number drawn rests
/// on chance, so only that it lies in the range is stated.
#[verifier::external_body]
pub(crate) fn random_below(bound: u32) -> (r: u32)
    requires
        bound > 0,
    ensures
        r < bound,
{
    rand::thread_rng().gen_range(0..bound)
}

} // verus!
