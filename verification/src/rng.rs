//! The random source of the chaos game.

use vstd::prelude::*;

verus! {

/// Draws one uniform random numerator over [`crate::sampler::UNIT_RESOLUTION`].
///
/// Relies on `rand::Rng::gen_range` on the thread-local generator: for the
/// non-empty range `1..1_000_000_000` it returns a uniformly distributed
/// integer of that half-open range. Nothing more than the range can be
/// promised of a random value.
#[verifier::external_body]
pub(crate) fn draw_unit_numerator() -> (r: u64)
    ensures
        1 <= r < 1_000_000_000,
{
    rand::Rng::gen_range(&mut rand::thread_rng(), 1..1_000_000_000u64)
}

} // verus!
