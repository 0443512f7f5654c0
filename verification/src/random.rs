//! The one place where chance enters: a number drawn by the `rand` crate.

use rand::Rng;
use vstd::prelude::*;

verus! {

/// Draws a number from `low..high` with `rand`'s thread-local generator:
/// `rand::thread_rng().gen_range(low..high)`.
///
/// Nothing is proved of this function. Its contract says what `gen_range`
/// does for a half-open range of `u32`: it refuses an empty range with a
/// panic, which `requires` rules out, and otherwise returns `low` plus an
/// offset below `high - low`. Which number comes out is up to chance, so the
/// contract says only what holds of every draw. The generator is seeded from
/// the operating system the first time a thread uses it, and panics if the
/// system can give it no seed.
#[verifier::external_body]
pub(crate) fn random_in_range(low: u32, high: u32) -> (drawn: u32)
    requires
        low < high,
    ensures
        low <= drawn < high,
{
    rand::thread_rng().gen_range(low..high)
}

} // verus!
