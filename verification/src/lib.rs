//! Encode arbitrary binary data as a raster image of colored pixels, and
//! decode such an image back into bytes.
//!
//! Every byte value is mapped to a deterministic RGB color by walking a
//! 360-degree hue wheel; an image is sized so that its pixel grid can hold
//! one color per input byte; decoding inverts the color mapping pixel by
//! pixel, skipping any color that no byte maps to.

use vstd::prelude::*;

pub mod canvas;
pub mod chart;
pub mod color;
pub mod dims;

verus! {

/// Errors produced by the core codec.
#[derive(Clone, Copy, Debug, PartialEq, Eq, Structural)]
pub enum PicbinError {
    /// The input is too large: no pair of 32-bit dimensions can hold one
    /// pixel per input byte.
    FileSizeTooLarge,
}

} // verus!
