//! Random draws.

use vstd::prelude::*;
use rand::Rng;

verus! {

/// Draws a number from `low..high` with `rand::thread_rng().gen_range`.
/// Claimed: the result lies in the range (`gen_range` panics on an empty
/// range, which `requires` rules out). Which number comes is chance, and is
/// not stated.
#[verifier::external_body]
pub(crate) fn draw_in_range(low: u64, high: u64) -> (r: u64)
    requires
        low < high,
    ensures
        low <= r < high,
{
    rand::thread_rng().gen_range(low..high)
}

} // verus!
