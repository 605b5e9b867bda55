//! The quantization primitive: one brightness sample per pixel, rounded to
//! the nearest of a few evenly spaced levels.

use vstd::arithmetic::div_mod::{lemma_div_by_multiple, lemma_fundamental_div_mod};
use vstd::prelude::*;

verus! {

/// The number of levels of a two-bit quantization.
pub const TWO_BIT: u8 = 4;

/// The brightness of an RGB pixel: its channels weighted 0.2126, 0.7152 and
/// 0.0722, in integer arithmetic, rounded down.
pub open spec fn luminance(pixel: (u8, u8, u8)) -> int {
    (2126 * pixel.0 + 7152 * pixel.1 + 722 * pixel.2) / 10000
}

/// Whether 0..=255 can be divided by `levels` levels that lie evenly apart,
/// the first at 0 and the last at 255: there are at least two, and their
/// distance is a whole number.
pub open spec fn has_even_levels(levels: int) -> bool {
    levels >= 2 && 255int % (levels - 1) == 0
}

/// The value of level `index` when `levels` levels divide 0..=255 evenly:
/// level 0 is 0, the last level is 255.
pub open spec fn level_value(index: int, levels: int) -> int {
    index * 255 / (levels - 1)
}

/// The index of the level that lies nearest to `sample`.
pub open spec fn level_index(sample: int, levels: int) -> int {
    (2 * sample * (levels - 1) + 255) / 510
}

/// `sample` rounded to the nearest of `levels` evenly spaced levels.
pub open spec fn quantized(sample: int, levels: int) -> int {
    level_value(level_index(sample, levels), levels)
}

/// The distance between two integers.
pub open spec fn distance(a: int, b: int) -> int {
    if a >= b {
        a - b
    } else {
        b - a
    }
}

/// Whether `value` is one of the four levels of a two-bit quantization.
pub open spec fn is_two_bit_level(value: int) -> bool {
    value == 0 || value == 85 || value == 170 || value == 255
}

/// A single brightness sample.
#[derive(Debug, Clone, Copy)]
pub struct MonoPixel(pub u8);

impl MonoPixel {
    /// The brightness of an RGB pixel.
    pub fn mono_from(pixel: (u8, u8, u8)) -> (mono: MonoPixel)
        ensures
            mono.0 == luminance(pixel),
    {
        let red: u32 = 2126 * (pixel.0 as u32);
        let green: u32 = 7152 * (pixel.1 as u32);
        let blue: u32 = 722 * (pixel.2 as u32);
        MonoPixel(((red + green + blue) / 10000) as u8)
    }

    /// The sample rounded to the nearest of `levels` evenly spaced levels.
    pub fn quantize(self, levels: u8) -> (level: MonoPixel)
        requires
            has_even_levels(levels as int),
        ensures
            level.0 == quantized(self.0 as int, levels as int),
    {
        let span: u32 = levels as u32 - 1;
        let sample: u32 = self.0 as u32;
        assert(2 * sample * span <= 510 * span) by (nonlinear_arith)
            requires
                sample <= 255,
                span >= 0,
        ;
        let index: u32 = (2 * sample * span + 255) / 510;
        assert(index * 255 <= span * 255);
        let level: u32 = index * 255 / span;
        assert(level <= 255) by (nonlinear_arith)
            requires
                level == index * 255 / (span as int),
                index * 255 <= span * 255,
                span > 0,
        ;
        MonoPixel(level as u8)
    }

    /// The sample as a channel value.
    pub fn get(&self) -> (value: u8)
        ensures
            value == self.0,
    {
        self.0
    }

    /// What is lost when this sample is replaced by `other`: this sample
    /// less the other.
    pub fn get_error(&self, other: &MonoPixel) -> (error: i32)
        ensures
            error == self.0 - other.0,
    {
        self.0 as i32 - other.0 as i32
    }
}

/// A grey pixel is as bright as each of its channels.
pub proof fn luminance_of_grey(value: u8)
    ensures
        luminance((value, value, value)) == value,
{
}

/// The brightness of a pixel is a channel value itself.
pub proof fn luminance_in_range(pixel: (u8, u8, u8))
    ensures
        0 <= luminance(pixel) <= 255,
{
}

/// Where `levels` levels lie evenly apart, the level that a sample is
/// rounded to is one of them, and every other level lies farther from the
/// sample.
pub proof fn quantized_is_nearest(sample: u8, levels: int, other: int)
    requires
        has_even_levels(levels),
        0 <= other < levels,
    ensures
        0 <= level_index(sample as int, levels) < levels,
        other != level_index(sample as int, levels) ==> distance(
            sample as int,
            quantized(sample as int, levels),
        ) < distance(sample as int, level_value(other, levels)),
{
    let span = levels - 1;
    let step = 255int / span;
    let index = level_index(sample as int, levels);
    let scaled = sample * span;
    lemma_fundamental_div_mod(255, span);
    assert(255 == step * span) by (nonlinear_arith)
        requires
            255 == span * step + 0,
    ;
    assert(2 * sample * span == 2 * scaled) by (nonlinear_arith)
        requires
            scaled == sample * span,
    ;
    assert(510 * index <= 2 * scaled + 255 < 510 * index + 510);
    assert(510 * index == span * (2 * step * index)) by (nonlinear_arith)
        requires
            255 == step * span,
    ;
    assert(2 * scaled + 255 == span * (2 * sample + step)) by (nonlinear_arith)
        requires
            255 == step * span,
            scaled == sample * span,
    ;
    assert(510 * index + 510 == span * (2 * step * index + 2 * step)) by (nonlinear_arith)
        requires
            255 == step * span,
    ;
    assert(2 * step * index <= 2 * sample + step < 2 * step * index + 2 * step) by (nonlinear_arith)
        requires
            span * (2 * step * index) <= span * (2 * sample + step),
            span * (2 * sample + step) < span * (2 * step * index + 2 * step),
            span >= 1,
    ;
    assert(step % 2 == 1) by (nonlinear_arith)
        requires
            255 == step * span,
    ;
    assert(0 <= index <= span) by (nonlinear_arith)
        requires
            2 * step * index <= 2 * sample + step,
            2 * sample + step < 2 * step * index + 2 * step,
            0 <= sample <= 255,
            255 == step * span,
            step >= 1,
            span >= 1,
    ;
    assert(level_value(index, levels) == index * step) by {
        assert(index * 255 == (index * step) * span) by (nonlinear_arith)
            requires
                255 == step * span,
        ;
        assert(0 <= index * step) by (nonlinear_arith)
            requires
                0 <= index,
                0 <= step,
        ;
        lemma_div_by_multiple(index * step, span);
    }
    assert(level_value(other, levels) == other * step) by {
        assert(other * 255 == (other * step) * span) by (nonlinear_arith)
            requires
                255 == step * span,
        ;
        assert(0 <= other * step) by (nonlinear_arith)
            requires
                0 <= other,
                0 <= step,
        ;
        lemma_div_by_multiple(other * step, span);
    }
    if other != index {
        assert(distance(sample as int, index * step) < distance(sample as int, other * step))
            by (nonlinear_arith)
            requires
                2 * step * index <= 2 * sample + step,
                2 * sample + step < 2 * step * index + 2 * step,
                step % 2 == 1,
                other != index,
                step >= 1,
        ;
    }
}

/// With four levels the index of the nearest level is `(6 * sample + 255) /
/// 510`, and the levels lie 85 apart.
pub proof fn two_bit_in_closed_form(sample: u8)
    ensures
        quantized(sample as int, TWO_BIT as int) == 85 * ((6 * sample + 255) / 510),
        0 <= (6 * sample + 255) / 510 <= 3,
{
    let index = level_index(sample as int, 4);
    assert(2 * sample * (4 - 1) == 6 * sample);
    assert(index == (6 * sample + 255) / 510);
    assert(level_value(index, 4) == index * 255 / 3);
}

/// Rounding to four levels yields 0, 85, 170 or 255, and no level lies
/// nearer to the sample than the one chosen.
pub proof fn two_bit_is_nearest(sample: u8, other: int)
    requires
        is_two_bit_level(other),
    ensures
        is_two_bit_level(quantized(sample as int, TWO_BIT as int)),
        distance(sample as int, quantized(sample as int, TWO_BIT as int)) <= distance(
            sample as int,
            other,
        ),
        distance(sample as int, quantized(sample as int, TWO_BIT as int)) <= 42,
{
    two_bit_in_closed_form(sample);
}

/// A sample that already sits on one of the four levels stays where it is,
/// so nothing is lost.
pub proof fn two_bit_level_is_fixed(sample: u8)
    requires
        is_two_bit_level(sample as int),
    ensures
        quantized(sample as int, TWO_BIT as int) == sample,
{
    two_bit_in_closed_form(sample);
}

} // verus!
