//! The three Sierra kernels and their transforms.

use crate::dither::diffusion::{points_forward, weight_sum, weights_of};
use crate::dither::errorpropagate::{dithered, mono_dither_with};
use vstd::prelude::*;

verus! {

/// The Sierra kernel. Each entry is a neighbour, given as columns to the right
/// and rows below, with its weight.
pub const MATRIX: [(i8, i8, u8); 10] = [
    (1, 0, 5), (2, 0, 3),
    (-2, 1, 2), (-1, 1, 4), (0, 1, 5), (1, 1, 4), (2, 1, 2),
    (-1, 2, 2), (0, 2, 3), (1, 2, 2),
];

/// What the weights of the Sierra kernel are parts of.
pub const TOTAL_PORTIONS: u16 = 32;

/// Dithers `image` to four grey levels with the Sierra kernel.
pub fn sierra_mono_dither(image: image::DynamicImage) -> (out: image::DynamicImage)
    ensures
        dithered(image, out, MATRIX@, TOTAL_PORTIONS as int),
{
    mono_dither_with(image, MATRIX, TOTAL_PORTIONS)
}

/// The weights of the Sierra kernel add up to 32, and each of its neighbours
/// has its turn after the pixel that hands the error on.
pub proof fn kernel_is_balanced()
    ensures
        weight_sum(MATRIX@) == TOTAL_PORTIONS,
        points_forward(MATRIX@),
{
    reveal_with_fuel(weights_of, 11);
}

/// The two-row Sierra kernel. Each entry is a neighbour, given as columns to
/// the right and rows below, with its weight.
pub const TWO_ROW_MATRIX: [(i8, i8, u8); 7] = [
    (1, 0, 4), (2, 0, 3),
    (-2, 1, 1), (-1, 1, 2), (0, 1, 3), (1, 1, 2), (2, 1, 1),
];

/// What the weights of the two-row Sierra kernel are parts of.
pub const TWO_ROW_TOTAL_PORTIONS: u16 = 16;

/// Dithers `image` to four grey levels with the two-row Sierra kernel.
pub fn two_row_sierra_mono_dither(image: image::DynamicImage) -> (out: image::DynamicImage)
    ensures
        dithered(image, out, TWO_ROW_MATRIX@, TWO_ROW_TOTAL_PORTIONS as int),
{
    mono_dither_with(image, TWO_ROW_MATRIX, TWO_ROW_TOTAL_PORTIONS)
}

/// The weights of the two-row Sierra kernel add up to 16, and each of its
/// neighbours has its turn after the pixel that hands the error on.
pub proof fn two_row_kernel_is_balanced()
    ensures
        weight_sum(TWO_ROW_MATRIX@) == TWO_ROW_TOTAL_PORTIONS,
        points_forward(TWO_ROW_MATRIX@),
{
    reveal_with_fuel(weights_of, 8);
}

/// The Sierra Lite kernel. Each entry is a neighbour, given as columns to the
/// right and rows below, with its weight.
pub const LITE_MATRIX: [(i8, i8, u8); 3] = [
    (1, 0, 2),
    (-1, 1, 1), (0, 1, 1),
];

/// What the weights of the Sierra Lite kernel are parts of.
pub const LITE_TOTAL_PORTIONS: u16 = 4;

/// Dithers `image` to four grey levels with the Sierra Lite kernel.
pub fn sierra_lite_mono_dither(image: image::DynamicImage) -> (out: image::DynamicImage)
    ensures
        dithered(image, out, LITE_MATRIX@, LITE_TOTAL_PORTIONS as int),
{
    mono_dither_with(image, LITE_MATRIX, LITE_TOTAL_PORTIONS)
}

/// The weights of the Sierra Lite kernel add up to 4, and each of its
/// neighbours has its turn after the pixel that hands the error on.
pub proof fn lite_kernel_is_balanced()
    ensures
        weight_sum(LITE_MATRIX@) == LITE_TOTAL_PORTIONS,
        points_forward(LITE_MATRIX@),
{
    reveal_with_fuel(weights_of, 4);
}

} // verus!
