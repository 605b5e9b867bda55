use error_diffusion::dither::pixel::{MonoPixel, TWO_BIT};
use image::{Pixel, Rgb};

#[test]
fn two_bit_means_four_levels() {
    assert_eq!(TWO_BIT, 4);
}

#[test]
fn quantize_rounds_to_the_nearest_of_four_levels() {
    let cases: [(u8, u8); 10] = [
        (0, 0),
        (42, 0),
        (43, 85),
        (85, 85),
        (127, 85),
        (128, 170),
        (170, 170),
        (212, 170),
        (213, 255),
        (255, 255),
    ];
    for (sample, level) in cases {
        assert_eq!(MonoPixel(sample).quantize(TWO_BIT).get(), level);
    }
}

#[test]
fn quantize_never_misses_a_nearer_level() {
    for sample in 0..=255u8 {
        let level = MonoPixel(sample).quantize(TWO_BIT).get();
        assert!([0u8, 85, 170, 255].contains(&level));
        let chosen = (sample as i32 - level as i32).abs();
        assert!(chosen <= 42);
        for other in [0i32, 85, 170, 255] {
            assert!(chosen <= (sample as i32 - other).abs());
        }
    }
}

#[test]
fn quantize_keeps_a_level_where_it_is() {
    for level in [0u8, 85, 170, 255] {
        let sample = MonoPixel(level);
        let rounded = sample.quantize(TWO_BIT);
        assert_eq!(rounded.get(), level);
        assert_eq!(sample.get_error(&rounded), 0);
    }
}

#[test]
fn quantize_with_two_levels_splits_in_the_middle() {
    assert_eq!(MonoPixel(0).quantize(2).get(), 0);
    assert_eq!(MonoPixel(127).quantize(2).get(), 0);
    assert_eq!(MonoPixel(128).quantize(2).get(), 255);
    assert_eq!(MonoPixel(255).quantize(2).get(), 255);
}

#[test]
fn quantize_with_six_levels_steps_by_fifty_one() {
    assert_eq!(MonoPixel(25).quantize(6).get(), 0);
    assert_eq!(MonoPixel(26).quantize(6).get(), 51);
    assert_eq!(MonoPixel(76).quantize(6).get(), 51);
    assert_eq!(MonoPixel(77).quantize(6).get(), 102);
    assert_eq!(MonoPixel(230).quantize(6).get(), 255);
}

#[test]
fn quantize_is_nearest_for_every_even_spacing() {
    for levels in [2u8, 4, 6, 16, 18, 52, 86] {
        let step = 255 / (levels as i32 - 1);
        for sample in 0..=255u8 {
            let level = MonoPixel(sample).quantize(levels).get() as i32;
            assert_eq!(level % step, 0);
            for index in 0..levels as i32 {
                let other = index * step;
                if other != level {
                    assert!((sample as i32 - level).abs() < (sample as i32 - other).abs());
                }
            }
        }
    }
}

#[test]
fn get_error_is_the_sample_less_the_other() {
    assert_eq!(MonoPixel(128).get_error(&MonoPixel(170)), -42);
    assert_eq!(MonoPixel(127).get_error(&MonoPixel(85)), 42);
    assert_eq!(MonoPixel(0).get_error(&MonoPixel(255)), -255);
    assert_eq!(MonoPixel(255).get_error(&MonoPixel(0)), 255);
    assert_eq!(MonoPixel(7).get_error(&MonoPixel(7)), 0);
}

#[test]
fn mono_from_weighs_the_channels() {
    assert_eq!(MonoPixel::mono_from((255, 0, 0)).get(), 54);
    assert_eq!(MonoPixel::mono_from((0, 255, 0)).get(), 182);
    assert_eq!(MonoPixel::mono_from((0, 0, 255)).get(), 18);
    assert_eq!(MonoPixel::mono_from((10, 20, 30)).get(), 18);
    assert_eq!(MonoPixel::mono_from((200, 100, 50)).get(), 117);
    assert_eq!(MonoPixel::mono_from((0, 0, 0)).get(), 0);
    assert_eq!(MonoPixel::mono_from((255, 255, 255)).get(), 255);
}

#[test]
fn mono_from_of_a_grey_pixel_is_its_channel() {
    for value in 0..=255u8 {
        assert_eq!(MonoPixel::mono_from((value, value, value)).get(), value);
    }
}

#[test]
fn mono_from_agrees_with_the_luma_of_the_image_crate() {
    for red in (0..=255u8).step_by(15) {
        for green in (0..=255u8).step_by(17) {
            for blue in (0..=255u8).step_by(51) {
                let luma = Rgb([red, green, blue]).to_luma().0[0];
                assert_eq!(MonoPixel::mono_from((red, green, blue)).get(), luma);
            }
        }
    }
}
