//! Random draws, taken from the `rand` crate.

use rand::rngs::ThreadRng;
use rand::Rng;
use vstd::prelude::*;

verus! {

/// `rand::rngs::ThreadRng`, the handle to a thread's generator. It is
/// carried from `thread_rng` to `gen_range` and never looked into.
#[verifier::external_type_specification]
#[verifier::external_body]
pub struct ExThreadRng(rand::rngs::ThreadRng);

/// `rand::thread_rng` hands out the generator of the calling thread, which
/// the system seeds. Nothing is claimed of the generator. The call panics
/// where the system has no entropy to seed it with, which no argument of
/// this library decides.
pub assume_specification[ rand::thread_rng ]() -> ThreadRng;

/// `Rng::gen_range` on `u32`: a draw from the half-open range that starts at
/// `low` and ends before `high`. The crate panics on an empty range, which
/// the precondition rules out. Which number of the range comes back is left
/// open.
#[verifier::external_body]
pub(crate) fn gen_range(rng: &mut ThreadRng, low: u32, high: u32) -> (r: u32)
    requires
        low < high,
    ensures
        low <= r < high,
{
    rng.gen_range(low, high)
}

} // verus!
