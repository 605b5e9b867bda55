//! The Stucki kernel and its transform.

use crate::dither::diffusion::{points_forward, weight_sum, weights_of};
use crate::dither::errorpropagate::{dithered, mono_dither_with};
use vstd::prelude::*;

verus! {

/// The Stucki kernel. Each entry is a neighbour, given as columns to the right
/// and rows below, with its weight.
pub const MATRIX: [(i8, i8, u8); 12] = [
    (1, 0, 8), (2, 0, 4),
    (-2, 1, 2), (-1, 1, 4), (0, 1, 8), (1, 1, 4), (2, 1, 2),
    (-2, 2, 1), (-1, 2, 2), (0, 2, 4), (1, 2, 2), (2, 2, 1),
];

/// What the weights of the Stucki kernel are parts of.
pub const TOTAL_PORTIONS: u16 = 42;

/// Dithers `image` to four grey levels with the Stucki kernel.
pub fn stucki_mono_dither(image: image::DynamicImage) -> (out: image::DynamicImage)
    ensures
        dithered(image, out, MATRIX@, TOTAL_PORTIONS as int),
{
    mono_dither_with(image, MATRIX, TOTAL_PORTIONS)
}

/// The weights of the Stucki kernel add up to 42, and each of its neighbours
/// has its turn after the pixel that hands the error on.
pub proof fn kernel_is_balanced()
    ensures
        weight_sum(MATRIX@) == TOTAL_PORTIONS,
        points_forward(MATRIX@),
{
    reveal_with_fuel(weights_of, 13);
}

} // verus!
