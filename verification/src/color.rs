//! Grading modes that the shader selects between.
//!
//! The floating-point grading parameters themselves live with the GPU code;
//! the library keeps the discrete modes and the sizes of the hue tables.

use vstd::prelude::*;

verus! {

/// Number of hue bands that a grade adjusts independently.
pub const HUE_BAND_COUNT: usize = 8;

/// Number of entries of the hue-band weight table sampled by the shader.
pub const HUE_LUT_SIZE: usize = 1024;

/// Which luminance range a grade is restricted to.
#[derive(Debug, Clone, Copy, PartialEq, Eq, Structural)]
pub enum LuminanceMaskMode {
    Off,
    Shadows,
    Midtones,
    Highlights,
    Custom,
}

/// What the preview shows in place of the graded image, for inspection.
#[derive(Debug, Clone, Copy, PartialEq, Eq, Structural)]
pub enum DebugOutputMode {
    Off,
    LuminanceMask,
    HueBandWeights,
}

} // verus!
