//! Rendering: preview sizing, tiling, decoding, shader parameters and the
//! bookkeeping of a render session.

use vstd::prelude::*;

pub mod binary64;
pub mod engine;
pub mod params;
pub mod preview;
pub mod texture;
pub mod tiles;

verus! {

/// Milliseconds spent in each stage of a render event.
#[derive(Debug, Clone, Copy, PartialEq, Eq, Structural)]
pub struct RenderTiming {
    pub decode_ms: u128,
    pub source_upload_ms: u128,
    pub preview_dispatch_ms: u128,
    pub param_update_ms: u128,
    pub tile_render_ms: u128,
}

impl Default for RenderTiming {
    /// Every stage at zero milliseconds.
    fn default() -> (t: Self)
        ensures
            t.decode_ms == 0,
            t.source_upload_ms == 0,
            t.preview_dispatch_ms == 0,
            t.param_update_ms == 0,
            t.tile_render_ms == 0,
    {
        RenderTiming {
            decode_ms: 0,
            source_upload_ms: 0,
            preview_dispatch_ms: 0,
            param_update_ms: 0,
            tile_render_ms: 0,
        }
    }
}

} // verus!
