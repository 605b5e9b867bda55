//! The Atkinson kernel and its transform.

use crate::dither::diffusion::{points_forward, weight_sum, weights_of};
use crate::dither::errorpropagate::{dithered, mono_dither_with};
use vstd::prelude::*;

verus! {

/// The Atkinson kernel. Each entry is a neighbour, given as columns to the
/// right and rows below, with its weight.
pub const MATRIX: [(i8, i8, u8); 6] = [
    (1, 0, 1), (2, 0, 1),
    (-1, 1, 1), (0, 1, 1), (1, 1, 1),
    (0, 2, 1),
];

/// What the weights of the Atkinson kernel are parts of. The six weights make
/// up six eighths.
pub const TOTAL_PORTIONS: u16 = 8;

/// Dithers `image` to four grey levels with the Atkinson kernel.
pub fn atkinson_mono_dither(image: image::DynamicImage) -> (out: image::DynamicImage)
    ensures
        dithered(image, out, MATRIX@, TOTAL_PORTIONS as int),
{
    mono_dither_with(image, MATRIX, TOTAL_PORTIONS)
}

/// The weights of the Atkinson kernel add up to 6 only: a quarter of each
/// error is dropped. Each of its neighbours has its turn after the pixel that
/// hands the error on.
pub proof fn kernel_drops_a_quarter()
    ensures
        weight_sum(MATRIX@) == 6,
        TOTAL_PORTIONS == 8,
        points_forward(MATRIX@),
{
    reveal_with_fuel(weights_of, 7);
}

} // verus!
