//! Random picks. What comes back differs from call to call; the contracts
//! state only what holds of every outcome.

use vstd::prelude::*;

verus! {

/// `rand::random_range` on the inclusive range `low..=high`: some number of
/// that range. The range must not be empty.
#[verifier::external_body]
pub(crate) fn random_between(low: u64, high: u64) -> (r: u64)
    requires
        low <= high,
    ensures
        low <= r <= high,
{
    rand::random_range(low..=high)
}

/// Some number of `low..=high`, for numbers of 32 bits.
pub(crate) fn random_u32(low: u32, high: u32) -> (r: u32)
    requires
        low <= high,
    ensures
        low <= r <= high,
{
    random_between(low as u64, high as u64) as u32
}

/// Some index of `low..high`.
pub(crate) fn random_index(low: usize, high: usize) -> (r: usize)
    requires
        low < high,
    ensures
        low <= r < high,
{
    random_between(low as u64, (high - 1) as u64) as usize
}

/// `rand::random_ratio(1, 2)`: a fair coin. Nothing is known of the
/// outcome.
#[verifier::external_body]
pub(crate) fn random_coin() -> (r: bool) {
    rand::random_ratio(1, 2)
}

} // verus!
