//! The Floyd-Steinberg kernel and its transform.

use crate::dither::diffusion::{points_forward, weight_sum, weights_of};
use crate::dither::errorpropagate::{dithered, mono_dither_with};
use vstd::prelude::*;

verus! {

/// The Floyd-Steinberg kernel. Each entry is a neighbour, given as columns to
/// the right and rows below, with its weight.
pub const MATRIX: [(i8, i8, u8); 4] = [
    (1, 0, 7),
    (-1, 1, 5), (0, 1, 3), (1, 1, 1),
];

/// What the weights of the Floyd-Steinberg kernel are parts of.
pub const TOTAL_PORTIONS: u16 = 16;

/// Dithers `image` to four grey levels with the Floyd-Steinberg kernel.
pub fn floyd_steinberg_mono_dither(image: image::DynamicImage) -> (out: image::DynamicImage)
    ensures
        dithered(image, out, MATRIX@, TOTAL_PORTIONS as int),
{
    mono_dither_with(image, MATRIX, TOTAL_PORTIONS)
}

/// The weights of the Floyd-Steinberg kernel add up to 16, and each of its
/// neighbours has its turn after the pixel that hands the error on.
pub proof fn kernel_is_balanced()
    ensures
        weight_sum(MATRIX@) == TOTAL_PORTIONS,
        points_forward(MATRIX@),
{
    reveal_with_fuel(weights_of, 5);
}

} // verus!
