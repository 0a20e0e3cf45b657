//! Trusted boundary around the `rand` crate.
//!
//! The field owns a seeded `StdRng`; every per-tick increment is drawn
//! through the wrappers below, and the verified update rule takes whatever
//! came back as a plain value.

use vstd::prelude::*;

verus! {

#[verifier::external_type_specification]
#[verifier::external_body]
pub struct ExStdRng(rand::rngs::StdRng);

/// Relies on `rand::SeedableRng::seed_from_u64` for `StdRng`: builds a
/// generator from a 64-bit seed.  Nothing is claimed of the generator's
/// state; that runs started from the same seed draw the same values is a
/// documented property of the crate and is exercised by the tests.
#[verifier::external_body]
pub(crate) fn seed_rng(seed: u64) -> rand::rngs::StdRng {
    rand::SeedableRng::seed_from_u64(seed)
}

/// Relies on `rand::Rng::gen_range` on an `i64` range: returns a value
/// uniformly drawn from the half-open interval `[lo, hi)`, and panics only
/// on an empty range, which the precondition rules out.
#[verifier::external_body]
pub(crate) fn gen_range_i64(rng: &mut rand::rngs::StdRng, lo: i64, hi: i64) -> (r: i64)
    requires
        lo < hi,
    ensures
        lo <= r < hi,
{
    rand::Rng::gen_range(rng, lo..hi)
}

/// Relies on `rand::thread_rng` and `rand::Rng::gen_range`: draws a
/// process-random seed below 100000 from the unseeded thread-local
/// generator, as the startup seeding of the sketch does.
#[verifier::external_body]
pub(crate) fn draw_seed() -> (r: u64)
    ensures
        r < 100000,
{
    rand::Rng::gen_range(&mut rand::thread_rng(), 0u64..100000u64)
}

} // verus!
