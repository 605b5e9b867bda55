//! What holds of every pass, whatever the image.

use crate::dither::canvas::{converts, dynamic_format, dynamic_rows, dynamic_width};
use crate::dither::diffusion::{
    deposited, diffused, diffused_keeps_shape, inside, points_forward, residue, row_scanned,
    row_scanned_keeps_shape, same_shape, scanned, scanned_keeps_shape, settled, share, shifted,
    spread, spread_keeps_shape, visited, with_pixel, Kernel, Pixel, Rows,
};
use crate::dither::errorpropagate::dithered;
use crate::dither::pixel::{
    is_two_bit_level, luminance, luminance_of_grey, two_bit_is_nearest, two_bit_level_is_fixed,
};
use vstd::prelude::*;

verus! {

/// Whether the three channels of a pixel are equal.
pub open spec fn is_grey(pixel: Pixel) -> bool {
    pixel.0 == pixel.1 && pixel.1 == pixel.2
}

/// Whether a pixel is grey at one of the four levels, so that rounding it
/// changes nothing and leaves no error.
pub open spec fn is_settled(pixel: Pixel) -> bool {
    is_grey(pixel) && is_two_bit_level(pixel.0 as int)
}

/// Whether `(px, py)` has its turn before `(x, y)` in a pass.
pub open spec fn comes_before(px: int, py: int, x: int, y: int) -> bool {
    py < y || (py == y && px < x)
}

/// Whether no entry of a kernel names a neighbour in a row above.
pub open spec fn never_points_up(kernel: Kernel) -> bool {
    forall|i: int| 0 <= i < kernel.len() ==> (#[trigger] kernel[i]).1 >= 0
}

/// Whether none of the first `count` entries of a kernel, applied at
/// `(x, y)`, names the pixel `(px, py)`.
pub open spec fn misses(kernel: Kernel, count: nat, x: int, y: int, px: int, py: int) -> bool {
    forall|i: int|
        0 <= i < count ==> x + (#[trigger] kernel[i]).0 != px || y + kernel[i].1 != py
}

/// A rounded pixel is grey at one of the four levels.
pub proof fn settled_is_settled(pixel: Pixel)
    ensures
        is_settled(settled(pixel)),
{
    let sample = luminance(pixel);
    two_bit_is_nearest(sample as u8, 0);
}

/// Rounding a pixel that is grey at one of the four levels gives the pixel
/// back and leaves no error.
pub proof fn settled_pixel_is_fixed(pixel: Pixel)
    requires
        is_settled(pixel),
    ensures
        settled(pixel) == pixel,
        residue(pixel) == 0,
{
    luminance_of_grey(pixel.0);
    two_bit_level_is_fixed(pixel.0);
}

/// An error handed to a target off the canvas is lost: the image is not
/// wrapped around and not mirrored, it stays as it is.
pub proof fn off_canvas_is_skipped(rows: Rows, x: int, y: int, delta: int)
    requires
        !inside(rows, x, y),
    ensures
        deposited(rows, x, y, delta) == rows,
{
}

/// An entry of a kernel whose neighbour lies off the canvas is skipped: the
/// image is the same with it as without it. From a pixel in the last column
/// that is every entry that points to the right.
pub proof fn spread_skips_off_canvas(
    rows: Rows,
    kernel: Kernel,
    total: int,
    x: int,
    y: int,
    error: int,
    count: nat,
)
    requires
        count > 0,
        !inside(rows, x + kernel[count - 1].0, y + kernel[count - 1].1),
    ensures
        spread(rows, kernel, total, x, y, error, count) == spread(
            rows,
            kernel,
            total,
            x,
            y,
            error,
            (count - 1) as nat,
        ),
{
    spread_keeps_shape(rows, kernel, total, x, y, error, (count - 1) as nat);
}

/// Handing an error to one pixel changes no other pixel.
pub proof fn deposited_elsewhere(rows: Rows, x: int, y: int, delta: int, px: int, py: int)
    requires
        inside(rows, px, py),
        px != x || py != y,
    ensures
        deposited(rows, x, y, delta)[py][px] == rows[py][px],
{
}

/// The entries of a kernel change only the pixels that they name.
pub proof fn spread_elsewhere(
    rows: Rows,
    kernel: Kernel,
    total: int,
    x: int,
    y: int,
    error: int,
    count: nat,
    px: int,
    py: int,
)
    requires
        inside(rows, px, py),
        count <= kernel.len(),
        misses(kernel, count, x, y, px, py),
    ensures
        spread(rows, kernel, total, x, y, error, count)[py][px] == rows[py][px],
    decreases count,
{
    if count > 0 {
        let before = spread(rows, kernel, total, x, y, error, (count - 1) as nat);
        spread_elsewhere(rows, kernel, total, x, y, error, (count - 1) as nat, px, py);
        spread_keeps_shape(rows, kernel, total, x, y, error, (count - 1) as nat);
        let entry = kernel[count - 1];
        let part = share(error, entry.2 as int, total);
        deposited_elsewhere(before, x + entry.0, y + entry.1, part, px, py);
    }
}

/// The turn of a pixel changes that pixel and the neighbours on the canvas
/// that the kernel names, and nothing else.
pub proof fn visited_elsewhere(
    rows: Rows,
    kernel: Kernel,
    total: int,
    x: int,
    y: int,
    px: int,
    py: int,
)
    requires
        inside(rows, x, y),
        inside(rows, px, py),
        px != x || py != y,
        misses(kernel, kernel.len(), x, y, px, py),
    ensures
        visited(rows, kernel, total, x, y)[py][px] == rows[py][px],
{
    let rounded = with_pixel(rows, x, y, settled(rows[y][x]));
    spread_elsewhere(rounded, kernel, total, x, y, residue(rows[y][x]), kernel.len(), px, py);
}

/// A grey pixel stays grey when errors are handed on, whether or not it
/// receives one: the same amount goes to each channel.
pub proof fn spread_keeps_grey(
    rows: Rows,
    kernel: Kernel,
    total: int,
    x: int,
    y: int,
    error: int,
    count: nat,
    px: int,
    py: int,
)
    requires
        inside(rows, px, py),
        is_grey(rows[py][px]),
    ensures
        is_grey(spread(rows, kernel, total, x, y, error, count)[py][px]),
    decreases count,
{
    if count > 0 {
        spread_keeps_grey(rows, kernel, total, x, y, error, (count - 1) as nat, px, py);
        spread_keeps_shape(rows, kernel, total, x, y, error, (count - 1) as nat);
    }
}

/// After the turn of a pixel that pixel is grey, and so is every pixel that
/// was grey before.
pub proof fn visited_is_grey(
    rows: Rows,
    kernel: Kernel,
    total: int,
    x: int,
    y: int,
    px: int,
    py: int,
)
    requires
        inside(rows, x, y),
        inside(rows, px, py),
        is_grey(rows[py][px]) || (px == x && py == y),
    ensures
        is_grey(visited(rows, kernel, total, x, y)[py][px]),
{
    let rounded = with_pixel(rows, x, y, settled(rows[y][x]));
    spread_keeps_grey(rounded, kernel, total, x, y, residue(rows[y][x]), kernel.len(), px, py);
}

/// After the first `count` pixels of a row have had their turn they are
/// grey, and so is every pixel that was grey before.
pub proof fn row_scanned_is_grey(
    rows: Rows,
    kernel: Kernel,
    total: int,
    y: int,
    count: nat,
    px: int,
    py: int,
)
    requires
        0 <= y < rows.len(),
        count <= rows[y].len(),
        inside(rows, px, py),
        is_grey(rows[py][px]) || (py == y && px < count),
    ensures
        is_grey(row_scanned(rows, kernel, total, y, count)[py][px]),
    decreases count,
{
    if count > 0 {
        let before = row_scanned(rows, kernel, total, y, (count - 1) as nat);
        row_scanned_keeps_shape(rows, kernel, total, y, (count - 1) as nat);
        if !(py == y && px == count - 1) {
            row_scanned_is_grey(rows, kernel, total, y, (count - 1) as nat, px, py);
        }
        visited_is_grey(before, kernel, total, count - 1, y, px, py);
    }
}

/// After the `count` rows below the first have been walked through, their
/// pixels are grey, and so is every pixel that was grey before.
pub proof fn scanned_is_grey(rows: Rows, kernel: Kernel, total: int, count: nat, px: int, py: int)
    requires
        count < rows.len(),
        inside(rows, px, py),
        is_grey(rows[py][px]) || 1 <= py <= count,
    ensures
        is_grey(scanned(rows, kernel, total, count)[py][px]),
    decreases count,
{
    if count > 0 {
        let before = scanned(rows, kernel, total, (count - 1) as nat);
        scanned_keeps_shape(rows, kernel, total, (count - 1) as nat);
        if py != count {
            scanned_is_grey(rows, kernel, total, (count - 1) as nat, px, py);
        }
        let width = before[count as int].len();
        row_scanned_is_grey(before, kernel, total, count as int, width, px, py);
    }
}

/// After a pass every pixel below the first row is grey: its three channels
/// are equal. This holds for every image, every kernel and every
/// denominator.
pub proof fn diffused_is_grey(rows: Rows, kernel: Kernel, total: int, x: int, y: int)
    requires
        1 <= y,
        inside(rows, x, y),
    ensures
        is_grey(diffused(rows, kernel, total)[y][x]),
{
    scanned_is_grey(rows, kernel, total, (rows.len() - 1) as nat, x, y);
}

/// An image of a single row, or of none, comes out of a pass as it went in,
/// whatever the kernel: no pixel has a turn.
pub proof fn single_row_is_untouched(rows: Rows, kernel: Kernel, total: int)
    requires
        rows.len() <= 1,
    ensures
        diffused(rows, kernel, total) == rows,
{
}

/// Errors handed on from below the first row, by a kernel that never points
/// up, do not reach the first row.
pub proof fn spread_spares_first_row(
    rows: Rows,
    kernel: Kernel,
    total: int,
    x: int,
    y: int,
    error: int,
    count: nat,
)
    requires
        rows.len() > 0,
        y >= 1,
        count <= kernel.len(),
        never_points_up(kernel),
    ensures
        spread(rows, kernel, total, x, y, error, count)[0] == rows[0],
    decreases count,
{
    if count > 0 {
        spread_spares_first_row(rows, kernel, total, x, y, error, (count - 1) as nat);
        spread_keeps_shape(rows, kernel, total, x, y, error, (count - 1) as nat);
        assert(kernel[count - 1].1 >= 0);
    }
}

/// With a kernel that never points up, the first row comes out of a pass as
/// it went in: it is neither rounded nor reached by an error.
pub proof fn first_row_is_untouched(rows: Rows, kernel: Kernel, total: int)
    requires
        rows.len() > 0,
        never_points_up(kernel),
    ensures
        diffused(rows, kernel, total)[0] == rows[0],
{
    if rows.len() > 1 {
        scanned_spares_first_row(rows, kernel, total, (rows.len() - 1) as nat);
    }
}

/// Walking through a part of a row below the first, with a kernel that never
/// points up, does not reach the first row.
proof fn row_scanned_spares_first_row(rows: Rows, kernel: Kernel, total: int, y: int, count: nat)
    requires
        1 <= y < rows.len(),
        count <= rows[y].len(),
        never_points_up(kernel),
    ensures
        row_scanned(rows, kernel, total, y, count)[0] == rows[0],
    decreases count,
{
    if count > 0 {
        let before = row_scanned(rows, kernel, total, y, (count - 1) as nat);
        row_scanned_spares_first_row(rows, kernel, total, y, (count - 1) as nat);
        row_scanned_keeps_shape(rows, kernel, total, y, (count - 1) as nat);
        let rounded = with_pixel(before, count - 1, y, settled(before[y][count - 1]));
        spread_spares_first_row(
            rounded,
            kernel,
            total,
            count - 1,
            y,
            residue(before[y][count - 1]),
            kernel.len(),
        );
    }
}

/// Walking through the rows below the first, with a kernel that never points
/// up, does not reach the first row.
proof fn scanned_spares_first_row(rows: Rows, kernel: Kernel, total: int, count: nat)
    requires
        count < rows.len(),
        never_points_up(kernel),
    ensures
        scanned(rows, kernel, total, count)[0] == rows[0],
    decreases count,
{
    if count > 0 {
        let before = scanned(rows, kernel, total, (count - 1) as nat);
        scanned_spares_first_row(rows, kernel, total, (count - 1) as nat);
        scanned_keeps_shape(rows, kernel, total, (count - 1) as nat);
        let width = before[count as int].len();
        row_scanned_spares_first_row(before, kernel, total, count as int, width);
    }
}

/// An error of zero changes nothing, whatever the weights.
pub proof fn spread_of_nothing(rows: Rows, kernel: Kernel, total: int, x: int, y: int, count: nat)
    requires
        total != 0,
    ensures
        spread(rows, kernel, total, x, y, 0, count) == rows,
    decreases count,
{
    if count > 0 {
        spread_of_nothing(rows, kernel, total, x, y, (count - 1) as nat);
        let entry = kernel[count - 1];
        assert(share(0, entry.2 as int, total) == 0) by (nonlinear_arith)
            requires
                total != 0,
        ;
        let tx = x + entry.0;
        let ty = y + entry.1;
        if inside(rows, tx, ty) {
            assert(shifted(rows[ty][tx], 0) == rows[ty][tx]);
            assert(rows[ty].update(tx, rows[ty][tx]) =~= rows[ty]);
            assert(rows.update(ty, rows[ty]) =~= rows);
        }
    }
}

/// The turn of a pixel that is grey at one of the four levels changes
/// nothing: it is rounded to itself and has no error to hand on.
pub proof fn visited_settled_is_fixed(rows: Rows, kernel: Kernel, total: int, x: int, y: int)
    requires
        total != 0,
        inside(rows, x, y),
        is_settled(rows[y][x]),
    ensures
        visited(rows, kernel, total, x, y) == rows,
{
    settled_pixel_is_fixed(rows[y][x]);
    assert(rows[y].update(x, rows[y][x]) =~= rows[y]);
    assert(rows.update(y, rows[y]) =~= rows);
    spread_of_nothing(rows, kernel, total, x, y, kernel.len());
}

/// Walking through pixels that are grey at one of the four levels changes
/// nothing.
proof fn row_scanned_settled_is_fixed(rows: Rows, kernel: Kernel, total: int, y: int, count: nat)
    requires
        total != 0,
        0 <= y < rows.len(),
        count <= rows[y].len(),
        forall|x: int| 0 <= x < count ==> is_settled(#[trigger] rows[y][x]),
    ensures
        row_scanned(rows, kernel, total, y, count) == rows,
    decreases count,
{
    if count > 0 {
        row_scanned_settled_is_fixed(rows, kernel, total, y, (count - 1) as nat);
        visited_settled_is_fixed(rows, kernel, total, count - 1, y);
    }
}

/// Walking through rows whose pixels are grey at one of the four levels
/// changes nothing.
proof fn scanned_settled_is_fixed(rows: Rows, kernel: Kernel, total: int, count: nat)
    requires
        total != 0,
        count < rows.len(),
        forall|x: int, y: int| 1 <= y && inside(rows, x, y) ==> is_settled(#[trigger] rows[y][x]),
    ensures
        scanned(rows, kernel, total, count) == rows,
    decreases count,
{
    if count > 0 {
        scanned_settled_is_fixed(rows, kernel, total, (count - 1) as nat);
        row_scanned_settled_is_fixed(rows, kernel, total, count as int, rows[count as int].len());
    }
}

/// An image whose pixels below the first row are all grey at one of the
/// four levels comes out of a pass as it went in, whatever the kernel: every
/// error is zero. An all-white image is such an image.
pub proof fn settled_image_is_fixed(rows: Rows, kernel: Kernel, total: int)
    requires
        total != 0,
        forall|x: int, y: int| 1 <= y && inside(rows, x, y) ==> is_settled(#[trigger] rows[y][x]),
    ensures
        diffused(rows, kernel, total) == rows,
{
    if rows.len() > 1 {
        scanned_settled_is_fixed(rows, kernel, total, (rows.len() - 1) as nat);
    }
}

/// With a kernel that points forward, the turn of a pixel leaves that pixel
/// rounded and changes no pixel that had its turn before.
pub proof fn visited_looks_forward(
    rows: Rows,
    kernel: Kernel,
    total: int,
    x: int,
    y: int,
    px: int,
    py: int,
)
    requires
        points_forward(kernel),
        inside(rows, x, y),
        inside(rows, px, py),
        !comes_before(x, y, px, py),
    ensures
        visited(rows, kernel, total, x, y)[py][px] == if px == x && py == y {
            settled(rows[y][x])
        } else {
            rows[py][px]
        },
{
    let rounded = with_pixel(rows, x, y, settled(rows[y][x]));
    assert(misses(kernel, kernel.len(), x, y, px, py)) by {
        assert forall|i: int| 0 <= i < kernel.len() implies x + (#[trigger] kernel[i]).0 != px || y
            + kernel[i].1 != py by {
            assert(kernel[i].1 > 0 || (kernel[i].1 == 0 && kernel[i].0 > 0));
        }
    }
    spread_elsewhere(rounded, kernel, total, x, y, residue(rows[y][x]), kernel.len(), px, py);
}

/// With a kernel that points forward, walking through a part of a row
/// leaves the rows above as they were and the pixels walked through at one
/// of the four levels.
proof fn row_scanned_looks_forward(
    rows: Rows,
    kernel: Kernel,
    total: int,
    y: int,
    count: nat,
    px: int,
    py: int,
)
    requires
        points_forward(kernel),
        0 <= y < rows.len(),
        count <= rows[y].len(),
        inside(rows, px, py),
    ensures
        py < y ==> row_scanned(rows, kernel, total, y, count)[py][px] == rows[py][px],
        py == y && px < count ==> is_settled(row_scanned(rows, kernel, total, y, count)[py][px]),
    decreases count,
{
    if count > 0 {
        let before = row_scanned(rows, kernel, total, y, (count - 1) as nat);
        row_scanned_looks_forward(rows, kernel, total, y, (count - 1) as nat, px, py);
        row_scanned_keeps_shape(rows, kernel, total, y, (count - 1) as nat);
        if py < y || (py == y && px < count) {
            visited_looks_forward(before, kernel, total, count - 1, y, px, py);
            settled_is_settled(before[y][count - 1]);
        }
    }
}

/// With a kernel that points forward, the rows walked through end at one of
/// the four levels.
proof fn scanned_looks_forward(rows: Rows, kernel: Kernel, total: int, count: nat, px: int, py: int)
    requires
        points_forward(kernel),
        count < rows.len(),
        inside(rows, px, py),
        1 <= py <= count,
    ensures
        is_settled(scanned(rows, kernel, total, count)[py][px]),
    decreases count,
{
    let before = scanned(rows, kernel, total, (count - 1) as nat);
    scanned_keeps_shape(rows, kernel, total, (count - 1) as nat);
    if py < count {
        scanned_looks_forward(rows, kernel, total, (count - 1) as nat, px, py);
    }
    let width = before[count as int].len();
    row_scanned_looks_forward(before, kernel, total, count as int, width, px, py);
}

/// With a kernel that points forward, every pixel below the first row ends
/// a pass grey at one of the four levels: nothing reaches it after its
/// turn.
pub proof fn diffused_settles(rows: Rows, kernel: Kernel, total: int, x: int, y: int)
    requires
        points_forward(kernel),
        1 <= y,
        inside(rows, x, y),
    ensures
        is_settled(diffused(rows, kernel, total)[y][x]),
{
    scanned_looks_forward(rows, kernel, total, (rows.len() - 1) as nat, x, y);
}

/// With a kernel that points forward, a second pass changes nothing: the
/// first one leaves every pixel below the first row at one of the four
/// levels, where it has no error to hand on.
pub proof fn second_pass_changes_nothing(rows: Rows, kernel: Kernel, total: int)
    requires
        points_forward(kernel),
        total != 0,
    ensures
        diffused(diffused(rows, kernel, total), kernel, total) == diffused(rows, kernel, total),
{
    let once = diffused(rows, kernel, total);
    diffused_keeps_shape(rows, kernel, total);
    assert forall|x: int, y: int| 1 <= y && inside(once, x, y) implies is_settled(
        #[trigger] once[y][x],
    ) by {
        diffused_settles(rows, kernel, total, x, y);
    }
    settled_image_is_fixed(once, kernel, total);
}

/// A kernel that points forward never points up.
pub proof fn forward_never_points_up(kernel: Kernel)
    requires
        points_forward(kernel),
    ensures
        never_points_up(kernel),
{
    assert forall|i: int| 0 <= i < kernel.len() implies (#[trigger] kernel[i]).1 >= 0 by {
        assert(kernel[i].1 > 0 || (kernel[i].1 == 0 && kernel[i].0 > 0));
    }
}

/// A transform returns an image of the same width and the same height.
pub proof fn dithered_keeps_dimensions(
    image: image::DynamicImage,
    out: image::DynamicImage,
    kernel: Kernel,
    total: int,
)
    requires
        dithered(image, out, kernel, total),
    ensures
        dynamic_width(out) == dynamic_width(image),
        same_shape(dynamic_rows(out), dynamic_rows(image)),
{
    diffused_keeps_shape(dynamic_rows(image), kernel, total);
}

/// An image that a transform has dithered is grey below its first row.
pub proof fn dithered_is_grey(
    image: image::DynamicImage,
    out: image::DynamicImage,
    kernel: Kernel,
    total: int,
    x: int,
    y: int,
)
    requires
        dithered(image, out, kernel, total),
        converts(image),
        1 <= y,
        inside(dynamic_rows(out), x, y),
    ensures
        is_grey(dynamic_rows(out)[y][x]),
{
    diffused_keeps_shape(dynamic_rows(image), kernel, total);
    diffused_is_grey(dynamic_rows(image), kernel, total, x, y);
}

/// A transform whose kernel points forward, applied to its own result,
/// returns an image with the same pixels, the same width and the same
/// format.
pub proof fn dithered_twice(
    image: image::DynamicImage,
    once: image::DynamicImage,
    twice: image::DynamicImage,
    kernel: Kernel,
    total: int,
)
    requires
        points_forward(kernel),
        total != 0,
        dithered(image, once, kernel, total),
        dithered(once, twice, kernel, total),
    ensures
        dynamic_rows(twice) == dynamic_rows(once),
        dynamic_width(twice) == dynamic_width(once),
        dynamic_format(twice) == dynamic_format(once),
{
    if converts(image) {
        diffused_keeps_shape(dynamic_rows(image), kernel, total);
        second_pass_changes_nothing(dynamic_rows(image), kernel, total);
    }
}

} // verus!
