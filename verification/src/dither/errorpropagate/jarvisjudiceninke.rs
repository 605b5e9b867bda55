//! The kernel of Jarvis, Judice and Ninke and its transform.

use crate::dither::diffusion::{points_forward, weight_sum, weights_of};
use crate::dither::errorpropagate::{dithered, mono_dither_with};
use vstd::prelude::*;

verus! {

/// The kernel of Jarvis, Judice and Ninke. Each entry is a neighbour, given as
/// columns to the right and rows below, with its weight.
pub const MATRIX: [(i8, i8, u8); 12] = [
    (1, 0, 7), (2, 0, 5),
    (-2, 1, 3), (-1, 1, 5), (0, 1, 7), (1, 1, 5), (2, 1, 3),
    (-2, 2, 1), (-1, 2, 3), (0, 2, 5), (1, 2, 3), (2, 2, 1),
];

/// What the weights of the kernel of Jarvis, Judice and Ninke are parts of.
pub const TOTAL_PORTIONS: u16 = 48;

/// Dithers `image` to four grey levels with the kernel of Jarvis, Judice and
/// Ninke.
pub fn jarvis_judice_ninke_mono_dither(image: image::DynamicImage) -> (out: image::DynamicImage)
    ensures
        dithered(image, out, MATRIX@, TOTAL_PORTIONS as int),
{
    mono_dither_with(image, MATRIX, TOTAL_PORTIONS)
}

/// The weights of the kernel of Jarvis, Judice and Ninke add up to 48, and
/// each of its neighbours has its turn after the pixel that hands the error
/// on.
pub proof fn kernel_is_balanced()
    ensures
        weight_sum(MATRIX@) == TOTAL_PORTIONS,
        points_forward(MATRIX@),
{
    reveal_with_fuel(weights_of, 13);
}

} // verus!
