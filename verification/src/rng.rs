//! The crate's only sources of randomness, wrapped so that everything built
//! on top of them is verified for every value they may return.

use vstd::prelude::*;

verus! {

/// Verus-opaque declaration of rand's `SmallRng`, the generator a caller
/// hands to the constructors that need randomness.
#[verifier::external_type_specification]
#[verifier::external_body]
pub struct ExSmallRng(rand::rngs::SmallRng);

/// Relies on rand's `Rng::gen_range` over the half-open range `0..bound`:
/// the draw is uniform and always strictly below the bound.
#[verifier::external_body]
pub(crate) fn rng_below(rng: &mut rand::rngs::SmallRng, bound: u64) -> (r: u64)
    requires
        1 <= bound,
    ensures
        r < bound,
{
    rand::Rng::gen_range(rng, 0..bound)
}

/// Relies on rand's `Rng::gen_range` over the closed range `-1..=2`, drawn
/// from the thread's generator: the random turn bias of one agent for one
/// simulation step.
#[verifier::external_body]
pub(crate) fn draw_turn_step() -> (r: i64)
    ensures
        -1 <= r <= 2,
{
    let mut rng = rand::thread_rng();
    rand::Rng::gen_range(&mut rng, -1i64..=2)
}

/// Relies on rand's `random::<bool>()`: a fair coin flip; nothing is assumed
/// about the outcome.
#[verifier::external_body]
pub(crate) fn draw_coin() -> (r: bool) {
    rand::random::<bool>()
}

} // verus!
