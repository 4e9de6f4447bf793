//! Access to the thread-local random number generator of `rand`.

use rand::Rng;
use vstd::prelude::*;

verus! {

/// Relies on `rand::Rng::gen_range` with an inclusive `u64` range on the
/// thread-local generator: the value lies between both bounds; the call
/// panics only on an empty range, which `requires` leaves out.
#[verifier::external_body]
pub(crate) fn random_between(low: u64, high: u64) -> (r: u64)
    requires
        low <= high,
    ensures
        low <= r <= high,
{
    rand::thread_rng().gen_range(low..=high)
}

/// Relies on `rand::Rng::gen_ratio` on the thread-local generator: true with
/// probability `numerator / denominator`, which makes a ratio of one always
/// true and a ratio of zero always false; the call panics when the
/// denominator is zero or below the numerator, which `requires` leaves out.
#[verifier::external_body]
pub(crate) fn random_ratio(numerator: u32, denominator: u32) -> (r: bool)
    requires
        0 < denominator,
        numerator <= denominator,
    ensures
        numerator == denominator ==> r,
        numerator == 0 ==> !r,
{
    rand::thread_rng().gen_ratio(numerator, denominator)
}

} // verus!
