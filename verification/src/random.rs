//! The random number generator of `rand`, seen from the verified code.
use rand::rngs::ThreadRng;
use rand::Rng;
use vstd::prelude::*;

verus! {

/// `rand::rngs::ThreadRng`, the thread-local generator, carried through as an opaque value.
#[verifier::external_type_specification]
#[verifier::external_body]
pub struct ExThreadRng(ThreadRng);

/// Calls `rand::thread_rng`, which hands out the thread-local generator.
/// Nothing is claimed of the generator it returns.
#[verifier::external_body]
pub(crate) fn thread_rng() -> ThreadRng {
    rand::thread_rng()
}

/// Calls `Rng::gen_range(0..bound)`. The claim is only that the roll lies in `0..bound`;
/// which roll comes out is left to chance. `gen_range` panics on an empty range,
/// so `bound` must be positive.
#[verifier::external_body]
pub(crate) fn gen_below(rng: &mut ThreadRng, bound: u32) -> (roll: u32)
    requires
        bound > 0,
    ensures
        roll < bound,
{
    rng.gen_range(0..bound)
}

/// Calls `Rng::gen_ratio(numerator, denominator)`, which is true with probability
/// `numerator / denominator`. Claimed: a zero numerator never gives true, and a numerator
/// equal to the denominator always does (`Bernoulli::from_ratio` and its `sample`);
/// otherwise the outcome is left to chance. `gen_ratio` panics when the denominator is zero
/// or smaller than the numerator, which `requires` rules out.
#[verifier::external_body]
pub(crate) fn gen_ratio(rng: &mut ThreadRng, numerator: u32, denominator: u32) -> (hit: bool)
    requires
        0 < denominator,
        numerator <= denominator,
    ensures
        numerator == 0 ==> !hit,
        numerator == denominator ==> hit,
{
    rng.gen_ratio(numerator, denominator)
}

} // verus!
