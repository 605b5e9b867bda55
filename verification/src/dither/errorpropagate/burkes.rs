//! The Burkes kernel and its transform.

use crate::dither::diffusion::{points_forward, weight_sum, weights_of};
use crate::dither::errorpropagate::{dithered, mono_dither_with};
use vstd::prelude::*;

verus! {

/// The Burkes kernel. Each entry is a neighbour, given as columns to the right
/// and rows below, with its weight.
pub const MATRIX: [(i8, i8, u8); 7] = [
    (1, 0, 8), (2, 0, 4),
    (-2, 1, 2), (-1, 1, 4), (0, 1, 8), (1, 1, 4), (2, 1, 2),
];

/// What the weights of the Burkes kernel are parts of.
pub const TOTAL_PORTIONS: u16 = 32;

/// Dithers `image` to four grey levels with the Burkes kernel.
pub fn burkes_mono_dither(image: image::DynamicImage) -> (out: image::DynamicImage)
    ensures
        dithered(image, out, MATRIX@, TOTAL_PORTIONS as int),
{
    mono_dither_with(image, MATRIX, TOTAL_PORTIONS)
}

/// The weights of the Burkes kernel add up to 32, and each of its neighbours
/// has its turn after the pixel that hands the error on.
pub proof fn kernel_is_balanced()
    ensures
        weight_sum(MATRIX@) == TOTAL_PORTIONS,
        points_forward(MATRIX@),
{
    reveal_with_fuel(weights_of, 8);
}

} // verus!
