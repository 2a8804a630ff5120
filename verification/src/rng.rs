//! Trusted boundary to the `fastrand` pseudo-random number generator.
//!
//! The generator is deterministic for a given seed, but nothing about the
//! values it yields is assumed beyond their range: every decision taken on
//! a drawn value is made by verified code that holds for any value in that
//! range.

use vstd::prelude::*;

verus! {

#[verifier::external_type_specification]
#[verifier::external_body]
pub struct ExRng(fastrand::Rng);

/// Relies on `fastrand::Rng::with_seed`, which builds a generator from the
/// seed alone and never fails.
#[verifier::external_body]
pub(crate) fn rng_with_seed(seed: u64) -> fastrand::Rng {
    fastrand::Rng::with_seed(seed)
}

/// Relies on `fastrand::Rng::usize`: the result lies in the given range,
/// and the call panics only on an empty range, which `bound > 0` excludes.
#[verifier::external_body]
pub(crate) fn rng_usize_below(rng: &mut fastrand::Rng, bound: usize) -> (r: usize)
    requires
        bound > 0,
    ensures
        r < bound,
{
    rng.usize(0..bound)
}

/// Relies on `fastrand::Rng::u32`: the result lies in the given range, and
/// the call panics only on an empty range, which `bound > 0` excludes.
#[verifier::external_body]
pub(crate) fn rng_u32_below(rng: &mut fastrand::Rng, bound: u32) -> (r: u32)
    requires
        bound > 0,
    ensures
        r < bound,
{
    rng.u32(0..bound)
}

} // verus!
