//! Shader-facing encodings of the grading modes.

use vstd::prelude::*;
use crate::color::{DebugOutputMode, LuminanceMaskMode, HUE_BAND_COUNT, HUE_LUT_SIZE};

verus! {

/// Number of `vec4` entries in the packed hue table: two per table entry,
/// holding the weights of the eight hue bands.
pub const PACKED_HUE_LUT_VEC4_COUNT: usize = 2048;

/// The packed table has two `vec4`s for every entry of the hue table.
pub proof fn lemma_packed_hue_lut_count()
    ensures
        PACKED_HUE_LUT_VEC4_COUNT == HUE_LUT_SIZE * 2,
{
}

/// Packs a table of eight band weights per entry into two four-wide vectors
/// per entry, as the shader's storage buffer holds them: entry `i` becomes
/// vector `2i` (bands 0 to 3) and vector `2i + 1` (bands 4 to 7).
pub fn pack_hue_lut_entries<T: Copy>(table: &Vec<[T; HUE_BAND_COUNT]>) -> (packed: Vec<[T; 4]>)
    ensures
        packed.len() == 2 * table.len(),
        forall|n: int, j: int|
            0 <= n < packed.len() && 0 <= j < 4 ==> #[trigger] packed@[n][j] == table@[n / 2][(n % 2) * 4 + j],
{
    let mut packed: Vec<[T; 4]> = Vec::new();
    let mut i: usize = 0;
    while i < table.len()
        invariant
            i <= table.len(),
            packed.len() == 2 * i,
            forall|n: int, j: int|
                0 <= n < packed.len() && 0 <= j < 4 ==> #[trigger] packed@[n][j] == table@[n / 2][(n % 2) * 4 + j],
        decreases table.len() - i,
    {
        let w = table[i];
        let ghost before = packed@;
        let lo = [w[0], w[1], w[2], w[3]];
        let hi = [w[4], w[5], w[6], w[7]];
        packed.push(lo);
        packed.push(hi);
        proof {
            assert(packed@ == before.push(lo).push(hi));
            assert forall|n: int, j: int| 0 <= n < packed.len() && 0 <= j < 4 implies #[trigger] packed@[n][j]
                == table@[n / 2][(n % 2) * 4 + j] by {
                if n < 2 * i {
                    assert(packed@[n] == before[n]);
                } else if n == 2 * i {
                    assert(packed@[n] == lo);
                } else {
                    assert(packed@[n] == hi);
                }
            }
        }
        i += 1;
    }
    packed
}

/// The id of a luminance mask mode, as the shader reads it.
pub open spec fn spec_luminance_mask_mode_id(mode: LuminanceMaskMode) -> u32 {
    match mode {
        LuminanceMaskMode::Off => 0,
        LuminanceMaskMode::Shadows => 1,
        LuminanceMaskMode::Midtones => 2,
        LuminanceMaskMode::Highlights => 3,
        LuminanceMaskMode::Custom => 4,
    }
}

/// The id of a debug output mode, as the shader reads it.
pub open spec fn spec_debug_output_mode_id(mode: DebugOutputMode) -> u32 {
    match mode {
        DebugOutputMode::Off => 0,
        DebugOutputMode::LuminanceMask => 1,
        DebugOutputMode::HueBandWeights => 2,
    }
}

/// Encodes a luminance mask mode for the shader.
pub fn luminance_mask_mode_id(mode: LuminanceMaskMode) -> (id: u32)
    ensures
        id == spec_luminance_mask_mode_id(mode),
{
    match mode {
        LuminanceMaskMode::Off => 0,
        LuminanceMaskMode::Shadows => 1,
        LuminanceMaskMode::Midtones => 2,
        LuminanceMaskMode::Highlights => 3,
        LuminanceMaskMode::Custom => 4,
    }
}

/// Encodes a debug output mode for the shader.
pub fn debug_output_mode_id(mode: DebugOutputMode) -> (id: u32)
    ensures
        id == spec_debug_output_mode_id(mode),
{
    match mode {
        DebugOutputMode::Off => 0,
        DebugOutputMode::LuminanceMask => 1,
        DebugOutputMode::HueBandWeights => 2,
    }
}

/// Distinct luminance mask modes get distinct ids, all below five.
pub proof fn lemma_luminance_mask_mode_ids_distinct(a: LuminanceMaskMode, b: LuminanceMaskMode)
    ensures
        spec_luminance_mask_mode_id(a) < 5,
        spec_luminance_mask_mode_id(a) == spec_luminance_mask_mode_id(b) <==> a == b,
{
}

/// Distinct debug output modes get distinct ids, all below three.
pub proof fn lemma_debug_output_mode_ids_distinct(a: DebugOutputMode, b: DebugOutputMode)
    ensures
        spec_debug_output_mode_id(a) < 3,
        spec_debug_output_mode_id(a) == spec_debug_output_mode_id(b) <==> a == b,
{
}

} // verus!
