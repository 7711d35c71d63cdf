//! Trusted boundary around the pseudo-random generator.
//!
//! All randomness in the engine flows through one `fastrand::Rng` instance
//! that callers thread explicitly into every function that draws from it.

use vstd::prelude::*;

verus! {

/// Declares `fastrand::Rng` so that it can stand in signatures; the value is
/// opaque to the verifier.
#[verifier::external_type_specification]
#[verifier::external_body]
pub struct ExRng(fastrand::Rng);

/// Relies on `fastrand::Rng::u64` on an inclusive range: for `lo <= hi` it
/// returns a value in `[lo, hi]` (and panics only on an empty range, which
/// the precondition rules out).
#[verifier::external_body]
pub(crate) fn rng_u64_inclusive(rng: &mut fastrand::Rng, lo: u64, hi: u64) -> (r: u64)
    requires
        lo <= hi,
    ensures
        lo <= r <= hi,
{
    rng.u64(lo..=hi)
}

/// Relies on `fastrand::Rng::usize` on `0..n`: for `n > 0` it returns a value
/// below `n` (and panics only on an empty range, which the precondition rules
/// out).
#[verifier::external_body]
pub(crate) fn rng_usize_below(rng: &mut fastrand::Rng, n: usize) -> (r: usize)
    requires
        n > 0,
    ensures
        r < n,
{
    rng.usize(0..n)
}

/// Relies on `fastrand::Rng::bool`; nothing is assumed about the outcome.
#[verifier::external_body]
pub(crate) fn rng_bool(rng: &mut fastrand::Rng) -> bool {
    rng.bool()
}

} // verus!
