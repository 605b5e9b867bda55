//! The engine: one pass of error diffusion over a canvas, with any kernel.

pub mod atkinson;
pub mod burkes;
pub mod floydsteinberg;
pub mod jarvisjudiceninke;
pub mod sierra;
pub mod stucki;

use crate::dither::canvas::{
    converts, dynamic_format, dynamic_rows, dynamic_width, is_grid, pixel_rows, pixel_width,
    PixelFormat, RgbCanvas,
};
use crate::dither::diffusion::{
    clamped, deposited, diffused, inside, points_forward, row_scanned, scanned, settled, share,
    spread, visited, visited_keeps_shape, weight_sum, with_pixel, Kernel,
};
use crate::dither::pixel::{MonoPixel, TWO_BIT};
use vstd::prelude::*;

verus! {

/// A channel moved by `delta` and held within 0..=255.
fn shift_channel(value: u8, delta: i32) -> (moved: u8)
    requires
        -65025 <= delta <= 65025,
    ensures
        moved == clamped(value + delta),
{
    let sum: i32 = value as i32 + delta;
    if sum < 0 {
        0
    } else if sum > 255 {
        255
    } else {
        sum as u8
    }
}

/// The part of `error` that goes to a neighbour of weight `weight`,
/// rounded toward zero.
fn share_of(error: i32, weight: u8, total: u16) -> (part: i32)
    requires
        -255 <= error <= 255,
        total != 0,
    ensures
        part == share(error as int, weight as int, total as int),
        -65025 <= part <= 65025,
{
    assert(-65025 <= error * weight <= 65025) by (nonlinear_arith)
        requires
            -255 <= error <= 255,
            0 <= weight <= 255,
    ;
    let scaled: i32 = error * weight as i32;
    assert(-error * weight == -(error * weight)) by (nonlinear_arith);
    scaled / total as i32
}

/// Hands `delta` to the pixel at `(x, y)`, if there is one.
fn deposit(image: &mut RgbCanvas, x: i64, y: i64, delta: i32)
    requires
        -65025 <= delta <= 65025,
    ensures
        pixel_width(*final(image)) == pixel_width(*old(image)),
        pixel_rows(*final(image)) == deposited(
            pixel_rows(*old(image)),
            x as int,
            y as int,
            delta as int,
        ),
{
    let (width, height) = image.dimensions();
    if 0 <= x && x < width as i64 && 0 <= y && y < height as i64 {
        let (red, green, blue) = image.get_pixel(x as u32, y as u32);
        image.put_pixel(
            x as u32,
            y as u32,
            (shift_channel(red, delta), shift_channel(green, delta), shift_channel(blue, delta)),
        );
    }
}

/// Gives the pixel at `(x, y)` its turn: rounds it to one of four grey
/// levels and hands the rounding error on as the kernel says.
fn visit<const N: usize>(
    image: &mut RgbCanvas,
    matrix: &[(i8, i8, u8); N],
    total_portions: u16,
    x: u32,
    y: u32,
)
    requires
        total_portions != 0,
        inside(pixel_rows(*old(image)), x as int, y as int),
    ensures
        pixel_width(*final(image)) == pixel_width(*old(image)),
        pixel_rows(*final(image)) == visited(
            pixel_rows(*old(image)),
            matrix@,
            total_portions as int,
            x as int,
            y as int,
        ),
{
    let pixel = image.get_pixel(x, y);
    let mono = MonoPixel::mono_from(pixel);
    let quantized = mono.quantize(TWO_BIT);
    let level = quantized.get();
    image.put_pixel(x, y, (level, level, level));
    let error = mono.get_error(&quantized);
    let ghost rounded = pixel_rows(*image);
    assert(rounded == with_pixel(pixel_rows(*old(image)), x as int, y as int, settled(pixel)));
    let mut entry: usize = 0;
    while entry < N
        invariant
            entry <= N,
            matrix@.len() == N,
            total_portions != 0,
            -255 <= error <= 255,
            pixel_width(*image) == pixel_width(*old(image)),
            pixel_rows(*image) == spread(
                rounded,
                matrix@,
                total_portions as int,
                x as int,
                y as int,
                error as int,
                entry as nat,
            ),
        decreases N - entry,
    {
        let (x_off, y_off, portion) = matrix[entry];
        let part = share_of(error, portion, total_portions);
        deposit(image, x as i64 + x_off as i64, y as i64 + y_off as i64, part);
        entry += 1;
    }
}

/// Runs one pass of error diffusion over `image`, in place.
///
/// Every pixel below the first row, row by row and from left to right, is
/// rounded to the nearest of four grey levels and hands its rounding error
/// on: each entry `(x_off, y_off, portion)` of `matrix` adds `error *
/// portion / total_portions`, rounded toward zero, to each channel of the
/// pixel that lies `x_off` to the right and `y_off` below, where the image
/// has such a pixel. The first row is never rounded.
pub fn error_propagate_through_pixels<const N: usize>(
    image: &mut RgbCanvas,
    matrix: [(i8, i8, u8); N],
    total_portions: u16,
)
    requires
        total_portions != 0,
    ensures
        pixel_width(*final(image)) == pixel_width(*old(image)),
        pixel_rows(*final(image)) == diffused(
            pixel_rows(*old(image)),
            matrix@,
            total_portions as int,
        ),
{
    let (xdim, ydim) = image.dimensions();
    let mut y: u32 = 1;
    while y < ydim
        invariant
            1 <= y,
            ydim >= 1 ==> y <= ydim,
            total_portions != 0,
            is_grid(pixel_rows(*old(image)), xdim as nat, ydim as nat),
            is_grid(pixel_rows(*image), xdim as nat, ydim as nat),
            pixel_width(*image) == pixel_width(*old(image)),
            pixel_rows(*image) == scanned(
                pixel_rows(*old(image)),
                matrix@,
                total_portions as int,
                (y - 1) as nat,
            ),
        decreases ydim - y,
    {
        let ghost before = pixel_rows(*image);
        let mut x: u32 = 0;
        while x < xdim
            invariant
                x <= xdim,
                1 <= y < ydim,
                total_portions != 0,
                is_grid(before, xdim as nat, ydim as nat),
                is_grid(pixel_rows(*image), xdim as nat, ydim as nat),
                pixel_width(*image) == pixel_width(*old(image)),
                pixel_rows(*image) == row_scanned(
                    before,
                    matrix@,
                    total_portions as int,
                    y as int,
                    x as nat,
                ),
            decreases xdim - x,
        {
            proof {
                visited_keeps_shape(
                    pixel_rows(*image),
                    matrix@,
                    total_portions as int,
                    x as int,
                    y as int,
                );
            }
            visit(image, &matrix, total_portions, x, y);
            x += 1;
        }
        y += 1;
    }
}

/// What a transform with the given kernel owes for `image`: where the image
/// can be brought to 8-bit RGB, `out` is an 8-bit RGB image of the same
/// dimensions that holds the image after one pass; where it cannot, `out` is
/// the image itself.
pub open spec fn dithered(
    image: image::DynamicImage,
    out: image::DynamicImage,
    kernel: Kernel,
    total: int,
) -> bool {
    if converts(image) {
        &&& dynamic_format(out) == PixelFormat::Rgb8
        &&& dynamic_width(out) == dynamic_width(image)
        &&& dynamic_rows(out) == diffused(dynamic_rows(image), kernel, total)
    } else {
        out == image
    }
}

/// Brings `image` to 8-bit RGB, runs one pass over it with the given kernel
/// and returns the result. An image that cannot be brought there (its
/// samples are floating-point numbers, or its RGB buffer could not be
/// allocated) is returned as it came.
pub fn mono_dither_with<const N: usize>(
    image: image::DynamicImage,
    matrix: [(i8, i8, u8); N],
    total_portions: u16,
) -> (out: image::DynamicImage)
    requires
        total_portions != 0,
    ensures
        dithered(image, out, matrix@, total_portions as int),
{
    match RgbCanvas::from_dynamic(image) {
        Ok(mut rgb8_image) => {
            error_propagate_through_pixels(&mut rgb8_image, matrix, total_portions);
            rgb8_image.into_dynamic()
        },
        Err(image) => image,
    }
}

/// Whether `kernel` with the denominator `total` is one of the eight kernels
/// that have a transform of their own.
pub open spec fn registered(kernel: Kernel, total: int) -> bool {
    ||| kernel == floydsteinberg::MATRIX@ && total == floydsteinberg::TOTAL_PORTIONS
    ||| kernel == jarvisjudiceninke::MATRIX@ && total == jarvisjudiceninke::TOTAL_PORTIONS
    ||| kernel == atkinson::MATRIX@ && total == atkinson::TOTAL_PORTIONS
    ||| kernel == burkes::MATRIX@ && total == burkes::TOTAL_PORTIONS
    ||| kernel == stucki::MATRIX@ && total == stucki::TOTAL_PORTIONS
    ||| kernel == sierra::MATRIX@ && total == sierra::TOTAL_PORTIONS
    ||| kernel == sierra::TWO_ROW_MATRIX@ && total == sierra::TWO_ROW_TOTAL_PORTIONS
    ||| kernel == sierra::LITE_MATRIX@ && total == sierra::LITE_TOTAL_PORTIONS
}

/// Every registered kernel points forward, has a denominator above zero and
/// hands on no more than the whole error.
pub proof fn registered_kernels_point_forward(kernel: Kernel, total: int)
    requires
        registered(kernel, total),
    ensures
        points_forward(kernel),
        total > 0,
        weight_sum(kernel) <= total,
{
    floydsteinberg::kernel_is_balanced();
    jarvisjudiceninke::kernel_is_balanced();
    atkinson::kernel_drops_a_quarter();
    burkes::kernel_is_balanced();
    stucki::kernel_is_balanced();
    sierra::kernel_is_balanced();
    sierra::two_row_kernel_is_balanced();
    sierra::lite_kernel_is_balanced();
}

/// The weights of a registered kernel add up to its denominator. The
/// Atkinson kernel is the one exception: its weights add up to six eighths.
pub proof fn registered_weights_add_up(kernel: Kernel, total: int)
    requires
        registered(kernel, total),
        kernel != atkinson::MATRIX@,
    ensures
        weight_sum(kernel) == total,
{
    floydsteinberg::kernel_is_balanced();
    jarvisjudiceninke::kernel_is_balanced();
    burkes::kernel_is_balanced();
    stucki::kernel_is_balanced();
    sierra::kernel_is_balanced();
    sierra::two_row_kernel_is_balanced();
    sierra::lite_kernel_is_balanced();
}

} // verus!
