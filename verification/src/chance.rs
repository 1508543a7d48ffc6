//! The random draws that gameplay depends on, taken from a seedable
//! generator of the `rand` crate.
//!
//! Nothing here is proved: each function states what `rand` documents of
//! the call it makes, and the rules of the game never rely on more.

use rand::rngs::{OsRng, StdRng};
use rand::{Rng, SeedableRng};
use vstd::prelude::*;

verus! {

/// `rand::rngs::StdRng`, the generator that the runtime holds. Its state
/// is opaque to the proofs.
#[verifier::external_type_specification]
#[verifier::external_body]
pub struct ExStdRng(rand::rngs::StdRng);

/// The generator that `StdRng::seed_from_u64` makes of `seed`. The seed
/// alone decides it: the seed is stretched by fixed arithmetic into the
/// generator's key, so the same seed gives the same generator in every run
/// and on every machine. Nothing else is said of it.
pub uninterp spec fn seeded_rng(seed: u64) -> StdRng;

/// Calls `StdRng::seed_from_u64`: the generator that the seed decides.
#[verifier::external_body]
pub(crate) fn seeded_generator(seed: u64) -> (generator: StdRng)
    ensures
        generator == seeded_rng(seed),
{
    StdRng::seed_from_u64(seed)
}

/// Calls `StdRng::from_rng` on the operating system's generator: a
/// generator seeded from fresh entropy, or nothing where the system could
/// give none.
#[verifier::external_body]
pub(crate) fn entropy_generator() -> Option<StdRng> {
    StdRng::from_rng(OsRng).ok()
}

/// Calls `Rng::gen::<u64>`: any 64-bit value may come back.
#[verifier::external_body]
pub(crate) fn draw_u64(generator: &mut StdRng) -> u64 {
    generator.gen::<u64>()
}

/// Calls `Rng::gen_range` on `0..bound`: the value drawn lies in that
/// range. The call panics on an empty range, which `requires` leaves out.
#[verifier::external_body]
pub(crate) fn draw_below(generator: &mut StdRng, bound: u32) -> (value: u32)
    requires
        bound > 0,
    ensures
        value < bound,
{
    generator.gen_range(0..bound)
}

/// Calls `Rng::gen_ratio`: true with probability `numerator / denominator`,
/// so never where the numerator is zero and always where the two are equal.
/// The call panics on a zero denominator and on a numerator above the
/// denominator, which `requires` leaves out.
#[verifier::external_body]
pub(crate) fn draw_chance(generator: &mut StdRng, numerator: u32, denominator: u32) -> (hit: bool)
    requires
        denominator > 0,
        numerator <= denominator,
    ensures
        numerator == 0 ==> !hit,
        numerator == denominator ==> hit,
{
    generator.gen_ratio(numerator, denominator)
}

} // verus!
