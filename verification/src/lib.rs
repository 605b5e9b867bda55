//! Error-diffusion dithering of RGB images to four grey levels.
//!
//! One pass walks an image from its second row on, rounds each pixel to the
//! nearest of four grey levels and hands the rounding error on to the
//! neighbours that a kernel names. `dither::errorpropagate` holds the pass
//! and the eight registered kernels with their transforms,
//! `dither::diffusion` says what a pass computes, `dither::laws` what holds
//! of it, `dither::pixel` rounds a pixel, and `dither::canvas` is where the
//! `image` crate comes in.
#![allow(unused_imports)]

pub mod dither;
