//! Planning and bookkeeping for 2-D convolution on a compute accelerator.
//!
//! The library describes every device buffer, binding and command that a
//! convolution (or a chain of them) needs, with the crop border policy, and
//! splits the single readback into the requested outputs. Running the plan
//! on a device is left to an executor outside the library.
use vstd::prelude::*;

pub mod convolution;
pub mod error;
pub mod geometry;
pub mod image;
pub mod kernels;
pub mod pipeline;

pub use crate::error::ConvError;
pub use crate::image::Image;
pub use crate::kernels::Kernel;
pub use crate::pipeline::Pipeline;

verus! {

/// How samples outside the image are treated. Only `Crop` is planned: the
/// output shrinks so that every kernel window lies inside the input.
#[derive(Clone, Copy, Debug, PartialEq, Eq, Structural)]
pub enum BorderType {
    Crop,
    Mirror,
    Zero,
}

} // verus!
