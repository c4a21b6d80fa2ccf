//! The one place where chance enters: drawing a number from a generator.

use rand::rngs::StdRng;
use rand::Rng;
use vstd::prelude::*;

verus! {

/// The generator of the `rand` crate, `rand::rngs::StdRng`. Nothing is known
/// of a generator but that numbers can be drawn from it.
#[verifier::external_type_specification]
#[verifier::external_body]
pub struct ExStdRng(StdRng);

/// Draws a number below `bound`.
///
/// This calls `rand::Rng::gen_range` on the range `0 .. bound`. It is taken
/// on trust that the number drawn lies in that range, as `gen_range`
/// documents; nothing else is claimed of it. `gen_range` panics on an empty
/// range, so `bound` must not be zero.
#[verifier::external_body]
pub(crate) fn random_below(rng: &mut StdRng, bound: u64) -> (r: u64)
    requires
        bound > 0,
    ensures
        r < bound,
{
    rng.gen_range(0..bound)
}

} // verus!
