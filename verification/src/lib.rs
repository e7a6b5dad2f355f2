//! Tone: the verified core of a non-destructive photo grading engine.
//!
//! The library holds the parts of the renderer that decide and compute on
//! plain values: preview sizing, full-resolution tiling, image decoding into
//! RGBA pixels, the shader ids of the grading modes, and the bookkeeping of a
//! render session (what has been uploaded, updated and dispatched).

pub mod catalog;
pub mod color;
pub mod render;
