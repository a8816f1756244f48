//! The two random draws the game makes, taken from the `rand` crate.

use rand::Rng;
use vstd::prelude::*;

verus! {

/// A coin toss: `rand::random::<bool>()`, drawn from the thread's generator.
/// Either value may come back; nothing is claimed of it.
#[verifier::external_body]
pub(crate) fn coin() -> (heads: bool) {
    rand::random()
}

/// A number from the half-open range `low..high`: `Rng::gen_range` on
/// `rand::thread_rng()`. The call panics on an empty range, so the range must
/// hold a number; what comes back lies in it. Which number it is depends on
/// the generator's state alone.
#[verifier::external_body]
pub(crate) fn draw_between(low: u64, high: u64) -> (n: u64)
    requires
        low < high,
    ensures
        low <= n < high,
{
    rand::thread_rng().gen_range(low..high)
}

} // verus!
