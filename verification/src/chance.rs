//! The one door to the pseudo-random generator.

use vstd::prelude::*;

verus! {

/// Draws a pseudo-random integer with `macroquad::rand::gen_range`, which is
/// `gen_range` of the crate `quad_rand` on the generator that the whole
/// process shares. The generator scales a 32-bit draw into the span from `low`
/// to `high` and truncates towards zero, so all that is claimed of the outcome
/// is that it lies between the two bounds, both included. Two calls with the
/// same bounds may differ.
#[verifier::external_body]
pub(crate) fn draw_between(low: i32, high: i32) -> (r: i32)
    requires
        low <= high,
    ensures
        low <= r <= high,
{
    macroquad::rand::gen_range(low, high)
}

} // verus!
