//! Error-diffusion dithering against a fixed color palette.
//!
//! The library quantizes each pixel of a raster to its perceptually nearest
//! palette entry and spreads the quantization error over the not-yet-visited
//! neighbors with the Jarvis-Judice-Ninke kernel. Pixel channels are
//! floating-point values in the unit interval; the crate reasons about them
//! through their IEEE-754 bit patterns, and the few operations that need real
//! floating-point arithmetic or color science are delegated to the `palette`
//! crate behind trusted wrappers.

use vstd::prelude::*;

pub mod buffer;
pub mod engine;
pub mod fbits;
pub mod hex;
pub mod palette_index;

verus! {

/// Everything that can go wrong while building a palette or running a pass.
/// All of these abort the run; none is recoverable.
#[derive(Clone, Copy, Debug, PartialEq, Eq, Structural)]
pub enum DitherError {
    /// A palette string is not a six-digit hex color with an optional `#`.
    PaletteParse,
    /// The palette holds no entry at all.
    EmptyPalette,
    /// A perceptual difference came out NaN during the nearest-color search.
    Comparison,
}

} // verus!
