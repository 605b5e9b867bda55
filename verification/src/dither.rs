//! Error-diffusion dithering: the pixel primitive, the canvas it works on,
//! the model of one pass, the engine and the registered kernels.

pub mod canvas;
pub mod diffusion;
pub mod errorpropagate;
pub mod laws;
pub mod pixel;
