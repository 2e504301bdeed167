//! The crate's one trusted boundary: drawing a biased boolean from the
//! shared ChaCha pseudo-random source. Everything downstream of a draw is
//! verified for every value the draw could return.

use rand::Rng;
use vstd::prelude::*;

verus! {

#[verifier::external_type_specification]
#[verifier::external_body]
pub struct ExChaCha12Rng(rand_chacha::ChaCha12Rng);

/// Relies on rand's `Rng::random_ratio` (through `Bernoulli::from_ratio`):
/// for `num <= den` with `den >= 1` the call returns a draw that is `true`
/// with probability `num/den`; its source always returns `false` for a
/// zero numerator, always returns `true` for `num == den`, and panics only
/// when `den == 0` or `num > den`, which the precondition rules out.
#[verifier::external_body]
pub(crate) fn draw_ratio(rng: &mut rand_chacha::ChaCha12Rng, num: u32, den: u32) -> (b: bool)
    requires
        1 <= den,
        num <= den,
    ensures
        num == 0 ==> !b,
        num == den ==> b,
{
    rng.random_ratio(num, den)
}

} // verus!
