//! The random source shared by every strategy, and the draws the library
//! makes from it.

use vstd::prelude::*;

verus! {

/// Relies on `rand_chacha::ChaCha8Rng` as an opaque, seedable random source:
/// the library only hands it on to draws and reads nothing inside it.
#[verifier::external_type_specification]
#[verifier::external_body]
pub struct ExChaCha8Rng(rand_chacha::ChaCha8Rng);

/// Relies on `rand::Rng::gen_ratio`: `true` with probability
/// `numerator / denominator`. Its Bernoulli sampler never yields `true` for a
/// zero numerator and always yields `true` when the two are equal; it panics
/// when `denominator == 0` or `numerator > denominator`.
#[verifier::external_body]
pub(crate) fn gen_ratio(rng: &mut rand_chacha::ChaCha8Rng, numerator: u32, denominator: u32) -> (r: bool)
    requires
        0 < denominator,
        numerator <= denominator,
    ensures
        numerator == 0 ==> !r,
        numerator == denominator ==> r,
{
    rand::Rng::gen_ratio(rng, numerator, denominator)
}

} // verus!
