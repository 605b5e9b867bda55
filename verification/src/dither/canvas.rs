//! The images that a pass works on. They are buffers of the `image` crate,
//! which the verifier does not look into: what a buffer holds is given a
//! name here, and each call into the crate is a small function whose
//! contract is taken on trust from the crate's source.

use image::ColorType;
use vstd::prelude::*;

verus! {

/// An image of 8-bit RGB pixels: an `image::ImageBuffer<Rgb<u8>, Vec<u8>>`.
///
/// The buffer sits in a field that the verifier does not read, because
/// `ImageBuffer` cannot be declared to it: the type is bound by the crate's
/// trait `Pixel`. Its pixels are `pixel_rows`, its width is `pixel_width`.
#[verifier::external_body]
pub struct RgbCanvas {
    buffer: image::ImageBuffer<image::Rgb<u8>, Vec<u8>>,
}

/// `image::DynamicImage`, an image in any of the crate's sample formats.
/// Nothing inside it is visible to the verifier.
#[verifier::external_type_specification]
#[verifier::external_body]
pub struct ExDynamicImage(image::DynamicImage);

/// The colour types of the `image` crate: the channels of a pixel and the
/// type of a sample. `Other` stands for one that is not listed.
#[derive(Debug, Clone, Copy, PartialEq, Eq, Structural)]
pub enum PixelFormat {
    L8,
    La8,
    Rgb8,
    Rgba8,
    L16,
    La16,
    Rgb16,
    Rgba16,
    Rgb32F,
    Rgba32F,
    Other,
}

impl PixelFormat {
    /// Whether the samples are 8-bit or 16-bit integers, which always have
    /// an 8-bit rendition.
    pub open spec fn has_integer_samples(self) -> bool {
        self is L8 || self is La8 || self is Rgb8 || self is Rgba8 || self is L16 || self is La16
            || self is Rgb16 || self is Rgba16
    }

    /// Whether the samples are 8-bit or 16-bit integers.
    pub fn is_integer(&self) -> (integer: bool)
        ensures
            integer == self.has_integer_samples(),
    {
        match self {
            PixelFormat::Rgb32F | PixelFormat::Rgba32F | PixelFormat::Other => false,
            _ => true,
        }
    }
}

/// The pixels of a canvas as `(red, green, blue)`: one sequence for each
/// row, from the top, each from left to right.
pub uninterp spec fn pixel_rows(canvas: RgbCanvas) -> Seq<Seq<(u8, u8, u8)>>;

/// The width of a canvas in pixels. It is the length of each row; a canvas
/// without rows still has a width.
pub uninterp spec fn pixel_width(canvas: RgbCanvas) -> nat;

/// The pixels of an image once it is brought to 8-bit RGB, laid out as
/// `pixel_rows` lays out a canvas.
pub uninterp spec fn dynamic_rows(image: image::DynamicImage) -> Seq<Seq<(u8, u8, u8)>>;

/// The width of an image in pixels.
pub uninterp spec fn dynamic_width(image: image::DynamicImage) -> nat;

/// The colour type of an image.
pub uninterp spec fn dynamic_format(image: image::DynamicImage) -> PixelFormat;

/// Whether `rows` is a rectangle of `height` rows of `width` pixels.
pub open spec fn is_grid(rows: Seq<Seq<(u8, u8, u8)>>, width: nat, height: nat) -> bool {
    &&& rows.len() == height
    &&& forall|y: int| 0 <= y < height ==> #[trigger] rows[y].len() == width
}

/// Whether a buffer of three bytes for each pixel of a `width` by `height`
/// image can be allocated: the bytes of one row can be counted in a `usize`,
/// and those of all rows are no more than `isize::MAX`, the most that a
/// `Vec` holds.
pub open spec fn rgb8_fits(width: nat, height: nat) -> bool {
    3 * width <= usize::MAX && 3 * width * height <= isize::MAX
}

/// Whether an image can be brought to 8-bit RGB: its samples are integers
/// and the buffer of the result can be allocated.
pub open spec fn converts(image: image::DynamicImage) -> bool {
    &&& dynamic_format(image).has_integer_samples()
    &&& rgb8_fits(dynamic_width(image), dynamic_rows(image).len())
}

impl RgbCanvas {
    /// Calls `ImageBuffer::dimensions`, which returns the width and the
    /// height. Trusted: the buffer holds that many rows of that many pixels.
    #[verifier::external_body]
    pub(crate) fn dimensions(&self) -> (size: (u32, u32))
        ensures
            size.0 == pixel_width(*self),
            is_grid(pixel_rows(*self), size.0 as nat, size.1 as nat),
    {
        self.buffer.dimensions()
    }

    /// Calls `ImageBuffer::get_pixel`, which panics outside the image.
    /// Trusted: inside it, the three channels of the pixel at `(x, y)` come
    /// back.
    #[verifier::external_body]
    pub(crate) fn get_pixel(&self, x: u32, y: u32) -> (pixel: (u8, u8, u8))
        requires
            y < pixel_rows(*self).len(),
            x < pixel_rows(*self)[y as int].len(),
        ensures
            pixel == pixel_rows(*self)[y as int][x as int],
    {
        let image::Rgb([red, green, blue]) = *self.buffer.get_pixel(x, y);
        (red, green, blue)
    }

    /// Calls `ImageBuffer::put_pixel`, which panics outside the image.
    /// Trusted: inside it, the pixel at `(x, y)` becomes `pixel`, and no
    /// other pixel and no dimension changes.
    #[verifier::external_body]
    pub(crate) fn put_pixel(&mut self, x: u32, y: u32, pixel: (u8, u8, u8))
        requires
            y < pixel_rows(*old(self)).len(),
            x < pixel_rows(*old(self))[y as int].len(),
        ensures
            pixel_width(*final(self)) == pixel_width(*old(self)),
            pixel_rows(*final(self)) == pixel_rows(*old(self)).update(
                y as int,
                pixel_rows(*old(self))[y as int].update(x as int, pixel),
            ),
    {
        self.buffer.put_pixel(x, y, image::Rgb([pixel.0, pixel.1, pixel.2]));
    }

    /// The image as a canvas, where it can be brought to 8-bit RGB;
    /// otherwise the image itself, untouched.
    pub fn from_dynamic(image: image::DynamicImage) -> (result: Result<
        RgbCanvas,
        image::DynamicImage,
    >)
        ensures
            match result {
                Ok(canvas) => {
                    &&& converts(image)
                    &&& pixel_rows(canvas) == dynamic_rows(image)
                    &&& pixel_width(canvas) == dynamic_width(image)
                },
                Err(back) => !converts(image) && back == image,
            },
    {
        let format = format_of(&image);
        let (width, height) = dynamic_dimensions(&image);
        if format.is_integer() && fits_rgb8(width, height) {
            Ok(into_rgb8(image))
        } else {
            Err(image)
        }
    }

    /// The canvas as an image in 8-bit RGB, with the same pixels.
    pub fn into_dynamic(self) -> (image: image::DynamicImage)
        ensures
            dynamic_format(image) == PixelFormat::Rgb8,
            dynamic_rows(image) == pixel_rows(self),
            dynamic_width(image) == pixel_width(self),
    {
        from_rgb8(self)
    }
}

/// Whether a buffer of three bytes for each pixel of a `width` by `height`
/// image can be allocated.
fn fits_rgb8(width: u32, height: u32) -> (fits: bool)
    ensures
        fits == rgb8_fits(width as nat, height as nat),
{
    let row: u64 = 3 * (width as u64);
    assert(row * height <= 0xffff_ffff_ffff_ffff_ffff) by (nonlinear_arith)
        requires
            row <= 0x3_0000_0000,
            height <= 0xffff_ffff,
    ;
    let all: u128 = (row as u128) * (height as u128);
    assert(3 * (width as nat) * (height as nat) == all) by (nonlinear_arith)
        requires
            all == row * height,
            row == 3 * width,
    ;
    row as u128 <= usize::MAX as u128 && all <= isize::MAX as u128
}

/// Calls `DynamicImage::color`, which returns the colour type of the
/// image's variant. Trusted: the format that comes back is that colour type
/// under its own name.
#[verifier::external_body]
fn format_of(image: &image::DynamicImage) -> (format: PixelFormat)
    ensures
        format == dynamic_format(*image),
{
    match image.color() {
        ColorType::L8 => PixelFormat::L8,
        ColorType::La8 => PixelFormat::La8,
        ColorType::Rgb8 => PixelFormat::Rgb8,
        ColorType::Rgba8 => PixelFormat::Rgba8,
        ColorType::L16 => PixelFormat::L16,
        ColorType::La16 => PixelFormat::La16,
        ColorType::Rgb16 => PixelFormat::Rgb16,
        ColorType::Rgba16 => PixelFormat::Rgba16,
        ColorType::Rgb32F => PixelFormat::Rgb32F,
        ColorType::Rgba32F => PixelFormat::Rgba32F,
        _ => PixelFormat::Other,
    }
}

/// Calls `GenericImageView::dimensions` on a `DynamicImage`, which returns
/// the width and the height of the buffer inside. Trusted: the 8-bit RGB
/// rendition has that many rows of that many pixels.
#[verifier::external_body]
fn dynamic_dimensions(image: &image::DynamicImage) -> (size: (u32, u32))
    ensures
        size.0 == dynamic_width(*image),
        is_grid(dynamic_rows(*image), size.0 as nat, size.1 as nat),
{
    image::GenericImageView::dimensions(image)
}

/// Calls `DynamicImage::into_rgb8`. It hands an `ImageRgb8` back as it is
/// and converts the others pixel by pixel into a new buffer of three bytes
/// for each pixel. It panics where that buffer is longer than `usize` can
/// count or a `Vec` can hold, and on a floating-point sample that is not a
/// number, so neither is let in. Trusted: the canvas holds the 8-bit RGB
/// rendition of the image, at the image's width.
#[verifier::external_body]
fn into_rgb8(image: image::DynamicImage) -> (canvas: RgbCanvas)
    requires
        converts(image),
    ensures
        pixel_rows(canvas) == dynamic_rows(image),
        pixel_width(canvas) == dynamic_width(image),
{
    RgbCanvas { buffer: image.into_rgb8() }
}

/// Wraps the buffer in `DynamicImage::ImageRgb8`. Trusted: the image has
/// the colour type `Rgb8`, and its 8-bit RGB rendition is the buffer
/// itself.
#[verifier::external_body]
fn from_rgb8(canvas: RgbCanvas) -> (image: image::DynamicImage)
    ensures
        dynamic_format(image) == PixelFormat::Rgb8,
        dynamic_rows(image) == pixel_rows(canvas),
        dynamic_width(image) == pixel_width(canvas),
{
    image::DynamicImage::ImageRgb8(canvas.buffer)
}

} // verus!
