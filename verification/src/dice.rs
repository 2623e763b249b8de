//! Random draws. Each outcome is only known to lie in its requested range.
use vstd::prelude::*;
use rand::Rng;
use rand::SeedableRng;

verus! {

/// The seeded generator used by deterministic simulations.
#[verifier::external_type_specification]
#[verifier::external_body]
pub struct ExStdRng(rand::rngs::StdRng);

/// Trusted: `StdRng::seed_from_u64` builds a generator from a seed (no claim on its state).
#[verifier::external_body]
pub(crate) fn seeded_rng(seed: u64) -> rand::rngs::StdRng {
    rand::rngs::StdRng::seed_from_u64(seed)
}

/// Trusted: `rand::random::<u64>()` returns some 64-bit value from the thread generator.
#[verifier::external_body]
pub(crate) fn random_seed() -> u64 {
    rand::random::<u64>()
}

/// Trusted: `rand::random_range(lo..hi)` on `u32` returns a value in `[lo, hi)`; it panics on an
/// empty range, which `requires` rules out.
#[verifier::external_body]
pub(crate) fn thread_range_u32(lo: u32, hi: u32) -> (r: u32)
    requires
        lo < hi,
    ensures
        lo <= r < hi,
{
    rand::random_range(lo..hi)
}

/// Trusted: `rand::random_range(lo..hi)` on `usize` returns a value in `[lo, hi)`; it panics on an
/// empty range, which `requires` rules out.
#[verifier::external_body]
pub(crate) fn thread_range_usize(lo: usize, hi: usize) -> (r: usize)
    requires
        lo < hi,
    ensures
        lo <= r < hi,
{
    rand::random_range(lo..hi)
}

/// Trusted: `Rng::random_range(lo..hi)` on a `StdRng` for `u32` returns a value in `[lo, hi)`;
/// it panics on an empty range, which `requires` rules out.
#[verifier::external_body]
pub(crate) fn std_range_u32(rng: &mut rand::rngs::StdRng, lo: u32, hi: u32) -> (r: u32)
    requires
        lo < hi,
    ensures
        lo <= r < hi,
{
    rng.random_range(lo..hi)
}

/// Trusted: `Rng::random_range(lo..hi)` on a `StdRng` for `usize` returns a value in `[lo, hi)`;
/// it panics on an empty range, which `requires` rules out.
#[verifier::external_body]
pub(crate) fn std_range_usize(rng: &mut rand::rngs::StdRng, lo: usize, hi: usize) -> (r: usize)
    requires
        lo < hi,
    ensures
        lo <= r < hi,
{
    rng.random_range(lo..hi)
}

/// Trusted: `Rng::random_range(lo..=hi)` on a `StdRng` for `u8` returns a value in `[lo, hi]`;
/// it panics when `lo > hi`, which `requires` rules out.
#[verifier::external_body]
pub(crate) fn std_range_u8_inclusive(rng: &mut rand::rngs::StdRng, lo: u8, hi: u8) -> (r: u8)
    requires
        lo <= hi,
    ensures
        lo <= r <= hi,
{
    rng.random_range(lo..=hi)
}

} // verus!
