use error_diffusion::dither::canvas::{PixelFormat, RgbCanvas};
use error_diffusion::dither::errorpropagate::atkinson::{self, atkinson_mono_dither};
use error_diffusion::dither::errorpropagate::burkes::{self, burkes_mono_dither};
use error_diffusion::dither::errorpropagate::floydsteinberg::{self, floyd_steinberg_mono_dither};
use error_diffusion::dither::errorpropagate::jarvisjudiceninke::{
    self, jarvis_judice_ninke_mono_dither,
};
use error_diffusion::dither::errorpropagate::mono_dither_with;
use error_diffusion::dither::errorpropagate::sierra::{
    self, sierra_lite_mono_dither, sierra_mono_dither, two_row_sierra_mono_dither,
};
use error_diffusion::dither::errorpropagate::stucki::{self, stucki_mono_dither};
use image::{
    DynamicImage, GrayAlphaImage, GrayImage, ImageBuffer, Luma, LumaA, Rgb, Rgb32FImage, RgbImage,
    Rgba, Rgba32FImage, RgbaImage,
};

fn sample() -> RgbImage {
    RgbImage::from_fn(6, 4, |x, y| {
        Rgb([(100 + 7 * x + 7 * y) as u8, (60 + 7 * x + 14 * y) as u8, (200 + 5 * x + 7 * y) as u8])
    })
}

fn levels_below_first_row(image: &DynamicImage) -> Vec<u8> {
    let rgb = image.as_rgb8().expect("a dithered image is 8-bit RGB");
    let width = rgb.width();
    rgb.enumerate_pixels()
        .filter(|(_, y, _)| *y >= 1)
        .map(|(x, y, pixel)| {
            assert_eq!(pixel.0[0], pixel.0[1], "at {}, {} of {} columns", x, y, width);
            assert_eq!(pixel.0[1], pixel.0[2], "at {}, {} of {} columns", x, y, width);
            pixel.0[0]
        })
        .collect()
}

fn first_row(image: &DynamicImage) -> Vec<[u8; 3]> {
    let rgb = image.as_rgb8().expect("a dithered image is 8-bit RGB");
    (0..rgb.width()).map(|x| rgb.get_pixel(x, 0).0).collect()
}

fn all_transforms() -> [fn(DynamicImage) -> DynamicImage; 8] {
    [
        floyd_steinberg_mono_dither,
        jarvis_judice_ninke_mono_dither,
        atkinson_mono_dither,
        burkes_mono_dither,
        stucki_mono_dither,
        sierra_mono_dither,
        two_row_sierra_mono_dither,
        sierra_lite_mono_dither,
    ]
}

fn weight_sum(matrix: &[(i8, i8, u8)]) -> u16 {
    matrix.iter().map(|entry| entry.2 as u16).sum()
}

fn points_forward(matrix: &[(i8, i8, u8)]) -> bool {
    matrix.iter().all(|entry| entry.1 > 0 || (entry.1 == 0 && entry.0 > 0))
}

#[test]
fn floyd_steinberg_on_the_sample() {
    let out = floyd_steinberg_mono_dither(DynamicImage::ImageRgb8(sample()));
    assert_eq!(
        levels_below_first_row(&out),
        vec![85, 85, 85, 85, 170, 85, 85, 85, 170, 85, 170, 85, 170, 85, 170, 85, 170, 170]
    );
}

#[test]
fn jarvis_judice_ninke_on_the_sample() {
    let out = jarvis_judice_ninke_mono_dither(DynamicImage::ImageRgb8(sample()));
    assert_eq!(
        levels_below_first_row(&out),
        vec![85, 85, 85, 85, 85, 170, 85, 85, 170, 170, 85, 170, 85, 85, 170, 170, 170, 170]
    );
}

#[test]
fn atkinson_on_the_sample() {
    let out = atkinson_mono_dither(DynamicImage::ImageRgb8(sample()));
    assert_eq!(
        levels_below_first_row(&out),
        vec![85, 85, 85, 85, 85, 170, 85, 85, 85, 170, 170, 170, 85, 170, 170, 170, 85, 170]
    );
}

#[test]
fn burkes_on_the_sample() {
    let out = burkes_mono_dither(DynamicImage::ImageRgb8(sample()));
    assert_eq!(
        levels_below_first_row(&out),
        vec![85, 85, 85, 85, 170, 85, 85, 85, 170, 85, 170, 170, 85, 170, 85, 170, 170, 85]
    );
}

#[test]
fn stucki_on_the_sample() {
    let out = stucki_mono_dither(DynamicImage::ImageRgb8(sample()));
    assert_eq!(
        levels_below_first_row(&out),
        vec![85, 85, 85, 85, 85, 170, 85, 85, 170, 170, 85, 170, 85, 170, 85, 170, 170, 170]
    );
}

#[test]
fn sierra_on_the_sample() {
    let out = sierra_mono_dither(DynamicImage::ImageRgb8(sample()));
    assert_eq!(
        levels_below_first_row(&out),
        vec![85, 85, 85, 85, 85, 170, 85, 85, 170, 85, 170, 170, 85, 170, 170, 85, 170, 170]
    );
}

#[test]
fn two_row_sierra_on_the_sample() {
    let out = two_row_sierra_mono_dither(DynamicImage::ImageRgb8(sample()));
    assert_eq!(
        levels_below_first_row(&out),
        vec![85, 85, 85, 85, 170, 85, 85, 85, 170, 85, 170, 170, 85, 170, 170, 85, 170, 170]
    );
}

#[test]
fn sierra_lite_on_the_sample() {
    let out = sierra_lite_mono_dither(DynamicImage::ImageRgb8(sample()));
    assert_eq!(
        levels_below_first_row(&out),
        vec![85, 85, 85, 85, 170, 85, 85, 170, 85, 170, 85, 170, 85, 170, 85, 170, 170, 85]
    );
}

#[test]
fn registered_kernels_are_the_declared_tables() {
    assert_eq!(floydsteinberg::MATRIX, [(1, 0, 7), (-1, 1, 5), (0, 1, 3), (1, 1, 1)]);
    assert_eq!(floydsteinberg::TOTAL_PORTIONS, 16);
    assert_eq!(jarvisjudiceninke::MATRIX.len(), 12);
    assert_eq!(jarvisjudiceninke::TOTAL_PORTIONS, 48);
    assert_eq!(atkinson::MATRIX.len(), 6);
    assert_eq!(atkinson::TOTAL_PORTIONS, 8);
    assert_eq!(burkes::MATRIX.len(), 7);
    assert_eq!(burkes::TOTAL_PORTIONS, 32);
    assert_eq!(stucki::MATRIX.len(), 12);
    assert_eq!(stucki::TOTAL_PORTIONS, 42);
    assert_eq!(sierra::MATRIX.len(), 10);
    assert_eq!(sierra::TOTAL_PORTIONS, 32);
    assert_eq!(sierra::TWO_ROW_MATRIX.len(), 7);
    assert_eq!(sierra::TWO_ROW_TOTAL_PORTIONS, 16);
    assert_eq!(sierra::LITE_MATRIX, [(1, 0, 2), (-1, 1, 1), (0, 1, 1)]);
    assert_eq!(sierra::LITE_TOTAL_PORTIONS, 4);
}

#[test]
fn registered_weights_add_up_to_the_denominator() {
    assert_eq!(weight_sum(&floydsteinberg::MATRIX), floydsteinberg::TOTAL_PORTIONS);
    assert_eq!(weight_sum(&jarvisjudiceninke::MATRIX), jarvisjudiceninke::TOTAL_PORTIONS);
    assert_eq!(weight_sum(&burkes::MATRIX), burkes::TOTAL_PORTIONS);
    assert_eq!(weight_sum(&stucki::MATRIX), stucki::TOTAL_PORTIONS);
    assert_eq!(weight_sum(&sierra::MATRIX), sierra::TOTAL_PORTIONS);
    assert_eq!(weight_sum(&sierra::TWO_ROW_MATRIX), sierra::TWO_ROW_TOTAL_PORTIONS);
    assert_eq!(weight_sum(&sierra::LITE_MATRIX), sierra::LITE_TOTAL_PORTIONS);
}

#[test]
fn atkinson_hands_on_six_eighths() {
    assert_eq!(weight_sum(&atkinson::MATRIX), 6);
    assert_eq!(atkinson::TOTAL_PORTIONS, 8);
}

#[test]
fn registered_kernels_point_forward_within_two_pixels() {
    let kernels: [&[(i8, i8, u8)]; 8] = [
        &floydsteinberg::MATRIX,
        &jarvisjudiceninke::MATRIX,
        &atkinson::MATRIX,
        &burkes::MATRIX,
        &stucki::MATRIX,
        &sierra::MATRIX,
        &sierra::TWO_ROW_MATRIX,
        &sierra::LITE_MATRIX,
    ];
    for kernel in kernels {
        assert!(points_forward(kernel));
        assert!(kernel.iter().all(|entry| -2 <= entry.0 && entry.0 <= 2 && entry.1 <= 2));
    }
}

#[test]
fn every_transform_leaves_the_first_row_and_greys_the_rest() {
    let input = DynamicImage::ImageRgb8(sample());
    for transform in all_transforms() {
        let out = transform(input.clone());
        assert_eq!((out.width(), out.height()), (6, 4));
        assert_eq!(first_row(&out), first_row(&input));
        let levels = levels_below_first_row(&out);
        assert_eq!(levels.len(), 18);
        assert!(levels.iter().all(|level| [0, 85, 170, 255].contains(level)));
    }
}

#[test]
fn every_transform_applied_twice_is_as_applied_once() {
    for transform in all_transforms() {
        let once = transform(DynamicImage::ImageRgb8(sample()));
        let twice = transform(once.clone());
        assert_eq!(twice, once);
    }
}

#[test]
fn every_transform_leaves_one_pixel_untouched() {
    let input = DynamicImage::ImageRgb8(RgbImage::from_pixel(1, 1, Rgb([200, 100, 50])));
    for transform in all_transforms() {
        assert_eq!(transform(input.clone()), input);
    }
}

#[test]
fn every_transform_leaves_white_untouched() {
    let tall = DynamicImage::ImageRgb8(RgbImage::from_pixel(2, 5, Rgb([255, 255, 255])));
    let wide = DynamicImage::ImageRgb8(RgbImage::from_pixel(5, 2, Rgb([255, 255, 255])));
    for transform in all_transforms() {
        assert_eq!(transform(tall.clone()), tall);
        assert_eq!(transform(wide.clone()), wide);
    }
}

#[test]
fn transform_with_a_kernel_of_ones_own() {
    let input = RgbImage::from_fn(1, 2, |_, y| Rgb([[1, 2, 3], [200, 100, 50]][y as usize]));
    let out = mono_dither_with(DynamicImage::ImageRgb8(input), [(0, -1, 16)], 16);
    let rgb = out.into_rgb8();
    assert_eq!(rgb.get_pixel(0, 0).0, [33, 34, 35]);
    assert_eq!(rgb.get_pixel(0, 1).0, [85, 85, 85]);
}

#[test]
fn grey_image_is_brought_to_rgb_first() {
    let luma = GrayImage::from_fn(3, 3, |x, y| Luma([(10 + 10 * x + 90 * y + 10 * (y / 2)) as u8]));
    assert_eq!(luma.as_raw(), &vec![10, 20, 30, 100, 110, 120, 200, 210, 220]);
    let out = floyd_steinberg_mono_dither(DynamicImage::ImageLuma8(luma));
    let rgb = out.as_rgb8().expect("a dithered image is 8-bit RGB");
    let seen: Vec<[u8; 3]> = rgb.pixels().map(|pixel| pixel.0).collect();
    let expected: Vec<[u8; 3]> =
        [10u8, 20, 30, 85, 85, 170, 170, 255, 170].iter().map(|value| [*value; 3]).collect();
    assert_eq!(seen, expected);
}

#[test]
fn alpha_is_dropped_on_the_way_to_rgb() {
    let rgba = RgbaImage::from_fn(1, 2, |_, y| Rgba([[1, 2, 3, 44], [200, 100, 50, 7]][y as usize]));
    let out = mono_dither_with(DynamicImage::ImageRgba8(rgba), [(0, -1, 16)], 16);
    let rgb = out.as_rgb8().expect("a dithered image is 8-bit RGB");
    assert_eq!(rgb.get_pixel(0, 0).0, [33, 34, 35]);
    assert_eq!(rgb.get_pixel(0, 1).0, [85, 85, 85]);
    let grey = GrayAlphaImage::from_fn(1, 2, |_, y| LumaA([[9, 200], [128, 3]][y as usize]));
    let out = mono_dither_with(DynamicImage::ImageLumaA8(grey), [(0, -1, 16)], 16);
    let rgb = out.as_rgb8().expect("a dithered image is 8-bit RGB");
    assert_eq!(rgb.get_pixel(0, 0).0, [0, 0, 0]);
    assert_eq!(rgb.get_pixel(0, 1).0, [170, 170, 170]);
}

#[test]
fn sixteen_bit_samples_are_scaled_down_first() {
    let deep: ImageBuffer<Rgb<u16>, Vec<u16>> =
        ImageBuffer::from_fn(1, 2, |_, y| Rgb([[257, 514, 771], [51400, 25700, 12850]][y as usize]));
    let out = mono_dither_with(DynamicImage::ImageRgb16(deep), [(0, -1, 16)], 16);
    let rgb = out.as_rgb8().expect("a dithered image is 8-bit RGB");
    assert_eq!(rgb.get_pixel(0, 0).0, [33, 34, 35]);
    assert_eq!(rgb.get_pixel(0, 1).0, [85, 85, 85]);
}

#[test]
fn floating_point_image_comes_back_as_it_went_in() {
    let float = Rgb32FImage::from_pixel(2, 3, Rgb([0.5, 0.25, 0.75]));
    let input = DynamicImage::ImageRgb32F(float);
    for transform in all_transforms() {
        assert_eq!(transform(input.clone()), input);
    }
    let alpha = Rgba32FImage::from_pixel(2, 3, Rgba([0.5, 0.25, 0.75, 1.0]));
    let input = DynamicImage::ImageRgba32F(alpha);
    assert_eq!(floyd_steinberg_mono_dither(input.clone()), input);
}

#[test]
fn floating_point_image_with_a_sample_that_is_no_number_is_not_read() {
    let float = Rgb32FImage::from_pixel(2, 3, Rgb([f32::NAN, 0.25, 0.75]));
    let out = floyd_steinberg_mono_dither(DynamicImage::ImageRgb32F(float));
    let back = out.as_rgb32f().expect("the image is handed back");
    assert_eq!(back.dimensions(), (2, 3));
    assert!(back.get_pixel(1, 2).0[0].is_nan());
}

#[test]
fn canvas_is_made_of_integer_samples_only() {
    let float = DynamicImage::ImageRgb32F(Rgb32FImage::from_pixel(2, 3, Rgb([0.5, 0.25, 0.75])));
    match RgbCanvas::from_dynamic(float.clone()) {
        Ok(_) => panic!("floating-point samples have no canvas"),
        Err(back) => assert_eq!(back, float),
    }
    let grey = DynamicImage::ImageLuma8(GrayImage::from_pixel(2, 3, Luma([77])));
    match RgbCanvas::from_dynamic(grey) {
        Ok(canvas) => {
            let image = canvas.into_dynamic();
            assert_eq!(image, DynamicImage::ImageRgb8(RgbImage::from_pixel(2, 3, Rgb([77; 3]))));
        },
        Err(_) => panic!("8-bit samples have a canvas"),
    }
}

#[test]
fn canvas_of_a_buffer_with_spare_bytes_keeps_its_dimensions() {
    let mut raw = vec![255u8; 2 * 2 * 3];
    raw.extend([1, 2, 3, 4, 5, 6, 7]);
    let spare = RgbImage::from_raw(2, 2, raw).expect("the buffer is long enough");
    let out = floyd_steinberg_mono_dither(DynamicImage::ImageRgb8(spare.clone()));
    assert_eq!(out, DynamicImage::ImageRgb8(spare));
}

#[test]
fn image_without_rows_keeps_its_width() {
    let flat = DynamicImage::ImageLuma8(GrayImage::new(u32::MAX, 0));
    let out = floyd_steinberg_mono_dither(flat);
    let rgb = out.as_rgb8().expect("a dithered image is 8-bit RGB");
    assert_eq!(rgb.dimensions(), (u32::MAX, 0));
    let thin = DynamicImage::ImageLuma8(GrayImage::new(0, u32::MAX));
    let out = floyd_steinberg_mono_dither(thin);
    let rgb = out.as_rgb8().expect("a dithered image is 8-bit RGB");
    assert_eq!(rgb.dimensions(), (0, u32::MAX));
}

#[test]
fn integer_formats_are_those_of_eight_and_sixteen_bits() {
    let integer = [
        PixelFormat::L8,
        PixelFormat::La8,
        PixelFormat::Rgb8,
        PixelFormat::Rgba8,
        PixelFormat::L16,
        PixelFormat::La16,
        PixelFormat::Rgb16,
        PixelFormat::Rgba16,
    ];
    for format in integer {
        assert!(format.is_integer());
    }
    for format in [PixelFormat::Rgb32F, PixelFormat::Rgba32F, PixelFormat::Other] {
        assert!(!format.is_integer());
    }
}
