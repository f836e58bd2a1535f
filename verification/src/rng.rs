//! The crate's only source of randomness: the thread-local generator of the
//! `rand` crate, reached through trusted wrappers. Nothing is assumed about
//! a sample beyond the range it was drawn from.

use vstd::prelude::*;

verus! {

/// Handle to `rand`'s thread-local generator; opaque to verification.
#[verifier::external_type_specification]
#[verifier::external_body]
pub struct ExThreadRng(rand::rngs::ThreadRng);

/// Relies on rand::rng: returns a handle to the calling thread's generator.
/// (The call can fail only if the operating system cannot seed the
/// generator, a startup failure outside this library's control.)
#[verifier::external_body]
pub(crate) fn fresh_rng() -> rand::rngs::ThreadRng {
    rand::rng()
}

/// Relies on rand's RngExt::random_range over `0..n`: the sample is uniform
/// in the half-open range, and the call panics only on an empty range,
/// which the precondition rules out.
#[verifier::external_body]
pub(crate) fn random_below(rng: &mut rand::rngs::ThreadRng, n: usize) -> (r: usize)
    requires
        0 < n,
    ensures
        r < n,
{
    rand::RngExt::random_range(rng, 0..n)
}

} // verus!
