//! The draws that the library takes from the `rand` crate.

use rand::Rng;
use vstd::prelude::*;

verus! {

/// Calls `rand::Rng::gen_range` on the thread-local generator with the range
/// `0..bound`. Trusted: the draw lies in that range. `gen_range` panics on an
/// empty range, so `bound` must be positive.
#[verifier::external_body]
pub(crate) fn random_below(bound: u8) -> (draw: u8)
    requires
        bound > 0,
    ensures
        draw < bound,
{
    rand::thread_rng().gen_range(0..bound)
}

/// Calls `rand::Rng::gen_ratio` on the thread-local generator. Trusted: the
/// answer is `true` when the ratio is one and `false` when it is zero; in
/// between either may come. `gen_ratio` panics on a zero denominator and on a
/// ratio above one.
#[verifier::external_body]
pub(crate) fn random_ratio(numerator: u32, denominator: u32) -> (hit: bool)
    requires
        denominator > 0,
        numerator <= denominator,
    ensures
        numerator == denominator ==> hit,
        numerator == 0 ==> !hit,
{
    rand::thread_rng().gen_ratio(numerator, denominator)
}

} // verus!
