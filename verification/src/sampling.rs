//! The source of random coordinates: the generator that the `rand` crate keeps
//! for each thread.

use vstd::prelude::*;
use rand::distributions::Uniform;
use rand::rngs::ThreadRng;
use rand::Rng;

verus! {

/// `rand`'s handle to the generator of the calling thread. Nothing of its
/// state is visible here.
#[verifier::external_type_specification]
#[verifier::external_body]
pub struct ExThreadRng(rand::rngs::ThreadRng);

/// `rand::thread_rng` hands out the handle. Nothing is claimed of it.
pub assume_specification[ rand::thread_rng ]() -> (rng: ThreadRng);

/// One index below `bound`, drawn from `rng` by `Rng::sample` on the
/// distribution `Uniform::new(0, bound)`.
///
/// Trusted: `rand` documents that this distribution covers the half-open
/// range from `0` to `bound`, and that building it fails on an empty range,
/// which `bound > 0` rules out. Nothing is claimed about which index comes
/// out, and two calls may differ.
#[verifier::external_body]
pub(crate) fn sample_index(rng: &mut ThreadRng, bound: usize) -> (index: usize)
    requires
        bound > 0,
    ensures
        index < bound,
{
    rng.sample(Uniform::new(0, bound))
}

} // verus!
