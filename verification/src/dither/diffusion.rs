//! What one pass of error diffusion makes of an image, as a function on
//! rows of pixels.
//!
//! A pass walks the image row by row from the second row on, each row from
//! left to right. At each pixel it takes the brightness, rounds it to one of
//! four levels, writes the level to all three channels and hands the
//! rounding error on to the neighbours that the kernel names. The image is
//! changed in place, so each pixel is read with all that was handed to it
//! before its turn.

use crate::dither::pixel::{luminance, quantized, TWO_BIT};
use vstd::prelude::*;

verus! {

/// A pixel: its red, its green and its blue channel.
pub type Pixel = (u8, u8, u8);

/// An image: one sequence of pixels for each row, from the top, each from
/// left to right.
pub type Rows = Seq<Seq<(u8, u8, u8)>>;

/// A kernel: for each neighbour that receives a part of an error, how many
/// columns to the right of the pixel it lies, how many rows below, and its
/// weight.
pub type Kernel = Seq<(i8, i8, u8)>;

/// `value` held within the range of a channel.
pub open spec fn clamped(value: int) -> u8 {
    if value < 0 {
        0u8
    } else if value > 255 {
        255u8
    } else {
        value as u8
    }
}

/// A pixel with `delta` added to each of its channels, each held within
/// 0..=255.
pub open spec fn shifted(pixel: Pixel, delta: int) -> Pixel {
    (clamped(pixel.0 + delta), clamped(pixel.1 + delta), clamped(pixel.2 + delta))
}

/// The part of `error` that a neighbour of weight `weight` receives:
/// `error * weight / total`, rounded toward zero.
pub open spec fn share(error: int, weight: int, total: int) -> int {
    if error >= 0 {
        (error * weight) / total
    } else {
        -((-error * weight) / total)
    }
}

/// Whether `(x, y)` is a pixel of the image.
pub open spec fn inside(rows: Rows, x: int, y: int) -> bool {
    0 <= y < rows.len() && 0 <= x < rows[y].len()
}

/// The image with the pixel at `(x, y)` replaced.
pub open spec fn with_pixel(rows: Rows, x: int, y: int, pixel: Pixel) -> Rows {
    rows.update(y, rows[y].update(x, pixel))
}

/// The image after `delta` is handed to `(x, y)`. A target off the canvas
/// receives nothing: the image stays as it is.
pub open spec fn deposited(rows: Rows, x: int, y: int, delta: int) -> Rows {
    if inside(rows, x, y) {
        with_pixel(rows, x, y, shifted(rows[y][x], delta))
    } else {
        rows
    }
}

/// The image after the first `count` entries of the kernel, in their order,
/// have handed their share of `error` on from `(x, y)`.
pub open spec fn spread(
    rows: Rows,
    kernel: Kernel,
    total: int,
    x: int,
    y: int,
    error: int,
    count: nat,
) -> Rows
    decreases count,
{
    if count == 0 {
        rows
    } else {
        let entry = kernel[count - 1];
        deposited(
            spread(rows, kernel, total, x, y, error, (count - 1) as nat),
            x + entry.0,
            y + entry.1,
            share(error, entry.2 as int, total),
        )
    }
}

/// The grey pixel that a pixel is rounded to: the nearest of four levels to
/// its brightness, in all three channels.
pub open spec fn settled(pixel: Pixel) -> Pixel {
    let level = quantized(luminance(pixel), TWO_BIT as int) as u8;
    (level, level, level)
}

/// The rounding error of a pixel: its brightness less the level it is
/// rounded to.
pub open spec fn residue(pixel: Pixel) -> int {
    luminance(pixel) - quantized(luminance(pixel), TWO_BIT as int)
}

/// The image after the pixel at `(x, y)` has had its turn: it is rounded,
/// then each entry of the kernel hands its share of the error on.
pub open spec fn visited(rows: Rows, kernel: Kernel, total: int, x: int, y: int) -> Rows {
    spread(
        with_pixel(rows, x, y, settled(rows[y][x])),
        kernel,
        total,
        x,
        y,
        residue(rows[y][x]),
        kernel.len(),
    )
}

/// The image after the first `count` pixels of row `y` have had their turn,
/// from left to right.
pub open spec fn row_scanned(rows: Rows, kernel: Kernel, total: int, y: int, count: nat) -> Rows
    decreases count,
{
    if count == 0 {
        rows
    } else {
        let before = row_scanned(rows, kernel, total, y, (count - 1) as nat);
        visited(before, kernel, total, count - 1, y)
    }
}

/// The image after the `count` rows that follow the first row have been
/// walked through, from the top.
pub open spec fn scanned(rows: Rows, kernel: Kernel, total: int, count: nat) -> Rows
    decreases count,
{
    if count == 0 {
        rows
    } else {
        let before = scanned(rows, kernel, total, (count - 1) as nat);
        row_scanned(before, kernel, total, count as int, before[count as int].len())
    }
}

/// The image after a whole pass: every row but the first has been walked
/// through.
pub open spec fn diffused(rows: Rows, kernel: Kernel, total: int) -> Rows {
    if rows.len() <= 1 {
        rows
    } else {
        scanned(rows, kernel, total, (rows.len() - 1) as nat)
    }
}

/// The sum of the weights of the first `count` entries of a kernel.
pub open spec fn weights_of(kernel: Kernel, count: nat) -> int
    decreases count,
{
    if count == 0 {
        0
    } else {
        weights_of(kernel, (count - 1) as nat) + kernel[count - 1].2
    }
}

/// The sum of all weights of a kernel.
pub open spec fn weight_sum(kernel: Kernel) -> int {
    weights_of(kernel, kernel.len())
}

/// Whether each entry of a kernel names a neighbour that has its turn later
/// in a pass: one in a row below, or one to the right in the same row.
pub open spec fn points_forward(kernel: Kernel) -> bool {
    forall|i: int|
        0 <= i < kernel.len() ==> (#[trigger] kernel[i]).1 > 0 || (kernel[i].1 == 0 && kernel[i].0
            > 0)
}

/// Whether two images have the same number of rows and, row by row, the
/// same number of pixels.
pub open spec fn same_shape(a: Rows, b: Rows) -> bool {
    &&& a.len() == b.len()
    &&& forall|y: int|
        #![trigger a[y]]
        #![trigger b[y]]
        0 <= y < a.len() ==> a[y].len() == b[y].len()
}

/// Handing an error on changes no dimension.
pub proof fn spread_keeps_shape(
    rows: Rows,
    kernel: Kernel,
    total: int,
    x: int,
    y: int,
    error: int,
    count: nat,
)
    ensures
        same_shape(spread(rows, kernel, total, x, y, error, count), rows),
    decreases count,
{
    if count > 0 {
        spread_keeps_shape(rows, kernel, total, x, y, error, (count - 1) as nat);
    }
}

/// The turn of one pixel changes no dimension.
pub proof fn visited_keeps_shape(rows: Rows, kernel: Kernel, total: int, x: int, y: int)
    requires
        inside(rows, x, y),
    ensures
        same_shape(visited(rows, kernel, total, x, y), rows),
{
    let rounded = with_pixel(rows, x, y, settled(rows[y][x]));
    spread_keeps_shape(rounded, kernel, total, x, y, residue(rows[y][x]), kernel.len());
}

/// Walking through a part of a row changes no dimension.
pub proof fn row_scanned_keeps_shape(rows: Rows, kernel: Kernel, total: int, y: int, count: nat)
    requires
        0 <= y < rows.len(),
        count <= rows[y].len(),
    ensures
        same_shape(row_scanned(rows, kernel, total, y, count), rows),
    decreases count,
{
    if count > 0 {
        let before = row_scanned(rows, kernel, total, y, (count - 1) as nat);
        row_scanned_keeps_shape(rows, kernel, total, y, (count - 1) as nat);
        visited_keeps_shape(before, kernel, total, count - 1, y);
    }
}

/// Walking through rows changes no dimension.
pub proof fn scanned_keeps_shape(rows: Rows, kernel: Kernel, total: int, count: nat)
    requires
        count < rows.len(),
    ensures
        same_shape(scanned(rows, kernel, total, count), rows),
    decreases count,
{
    if count > 0 {
        let before = scanned(rows, kernel, total, (count - 1) as nat);
        scanned_keeps_shape(rows, kernel, total, (count - 1) as nat);
        row_scanned_keeps_shape(before, kernel, total, count as int, before[count as int].len());
    }
}

/// A pass returns an image of the same dimensions.
pub proof fn diffused_keeps_shape(rows: Rows, kernel: Kernel, total: int)
    ensures
        same_shape(diffused(rows, kernel, total), rows),
{
    if rows.len() > 1 {
        scanned_keeps_shape(rows, kernel, total, (rows.len() - 1) as nat);
    }
}

} // verus!
