//! Seeded random values for the synthetic game trees, drawn from a ChaCha
//! generator so that a fixed seed reproduces a fixed tree.

use vstd::prelude::*;

verus! {

/// The ChaCha generator type of the rand_chacha crate, carried opaquely.
#[verifier::external_type_specification]
#[verifier::external_body]
pub struct ExChaCha20Rng(rand_chacha::ChaCha20Rng);

/// Relies on rand_core's `SeedableRng::seed_from_u64`: constructs a ChaCha
/// generator from a word-sized seed.  Nothing is assumed about the state.
#[verifier::external_body]
pub(crate) fn chacha_from_seed(seed: u64) -> rand_chacha::ChaCha20Rng {
    <rand_chacha::ChaCha20Rng as rand_chacha::rand_core::SeedableRng>::seed_from_u64(seed)
}

/// Relies on rand's `RngExt::random_range` over an inclusive range: the
/// drawn value lies within the range, and a nonempty range cannot make the
/// call fail.
#[verifier::external_body]
pub(crate) fn random_range_i64(
    rng: &mut rand_chacha::ChaCha20Rng,
    lo: i64,
    hi: i64,
) -> (r: i64)
    requires
        lo <= hi,
    ensures
        lo <= r <= hi,
{
    rand::RngExt::random_range(rng, lo..=hi)
}

/// Relies on rand's `RngExt::random_range` over an inclusive range: the
/// drawn index lies within the range, and a nonempty range cannot make the
/// call fail.
#[verifier::external_body]
pub(crate) fn random_range_usize(
    rng: &mut rand_chacha::ChaCha20Rng,
    lo: usize,
    hi: usize,
) -> (r: usize)
    requires
        lo <= hi,
    ensures
        lo <= r <= hi,
{
    rand::RngExt::random_range(rng, lo..=hi)
}

} // verus!
