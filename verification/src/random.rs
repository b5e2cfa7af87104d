//! Random draws, made by the generator of the `rltk` crate.

use rltk::RandomNumberGenerator;
use vstd::prelude::*;

verus! {

/// `rltk::RandomNumberGenerator`. Its state is not modelled: two draws with
/// the same arguments may differ.
#[verifier::external_type_specification]
#[verifier::external_body]
pub struct ExRandomNumberGenerator(RandomNumberGenerator);

/// Calls `RandomNumberGenerator::range` at `i32`, which draws from the
/// half-open range `min..max` and panics when that range is empty. All that is
/// claimed of the draw is that it lies in the range.
#[verifier::external_body]
pub(crate) fn draw_range(rng: &mut RandomNumberGenerator, min: i32, max: i32) -> (r: i32)
    requires
        min < max,
    ensures
        min <= r < max,
{
    rng.range(min, max)
}

/// Calls `RandomNumberGenerator::roll_dice`, which adds up `n` draws from
/// `1 ..= die_type` in 32-bit arithmetic. All that is claimed of the sum is
/// that each die shows at least 1 and at most `die_type`.
#[verifier::external_body]
pub(crate) fn roll_dice(rng: &mut RandomNumberGenerator, n: i32, die_type: i32) -> (r: i32)
    requires
        1 <= n,
        1 <= die_type < i32::MAX,
        n * die_type <= i32::MAX,
    ensures
        n <= r <= n * die_type,
{
    rng.roll_dice(n, die_type)
}

} // verus!
