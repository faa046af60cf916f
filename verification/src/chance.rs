//! The game's one source of chance.

use rand::Rng;
use vstd::prelude::*;

verus! {

/// Draws a number below `bound` from the thread's random generator, by
/// `rand::thread_rng().gen_range(0..bound)`.
///
/// Trusted, not proved: `gen_range` hands back a value of the half-open range
/// it is given, and it panics on an empty range, which `bound > 0` excludes.
/// Nothing is said about which value of the range comes, so two draws with
/// one bound may differ. The generator is seeded by the system when a thread
/// first asks for it; where the system has no randomness to give, that fails.
#[verifier::external_body]
pub(crate) fn draw_below(bound: u32) -> (drawn: u32)
    requires
        bound > 0,
    ensures
        drawn < bound,
{
    rand::thread_rng().gen_range(0..bound)
}

} // verus!
