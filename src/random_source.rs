//! The random source that every sampling routine of the library draws from.
use vstd::prelude::*;

use rand::Rng;

verus! {

/// The 64-bit Mersenne Twister that callers seed and hand to the library.
#[verifier::external_type_specification]
#[verifier::external_body]
pub struct ExMt64(rand_mt::Mt64);

/// Relies on `rand::Rng::gen_range` over the `rand_core` impl of `rand_mt::Mt64`:
/// an integer drawn uniformly from `0..bound`, which it panics on only when empty.
#[verifier::external_body]
pub(crate) fn draw_below(rng: &mut rand_mt::Mt64, bound: u128) -> (r: u128)
    requires
        bound > 0,
    ensures
        r < bound,
{
    rng.gen_range(0..bound)
}

} // verus!
