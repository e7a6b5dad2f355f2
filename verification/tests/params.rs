use tone::color::{DebugOutputMode, LuminanceMaskMode, HUE_BAND_COUNT, HUE_LUT_SIZE};
use tone::render::params::{
    debug_output_mode_id, luminance_mask_mode_id, pack_hue_lut_entries, PACKED_HUE_LUT_VEC4_COUNT,
};

#[test]
fn luminance_mask_modes_have_stable_ids() {
    assert_eq!(luminance_mask_mode_id(LuminanceMaskMode::Off), 0);
    assert_eq!(luminance_mask_mode_id(LuminanceMaskMode::Shadows), 1);
    assert_eq!(luminance_mask_mode_id(LuminanceMaskMode::Midtones), 2);
    assert_eq!(luminance_mask_mode_id(LuminanceMaskMode::Highlights), 3);
    assert_eq!(luminance_mask_mode_id(LuminanceMaskMode::Custom), 4);
}

#[test]
fn debug_output_modes_have_stable_ids() {
    assert_eq!(debug_output_mode_id(DebugOutputMode::Off), 0);
    assert_eq!(debug_output_mode_id(DebugOutputMode::LuminanceMask), 1);
    assert_eq!(debug_output_mode_id(DebugOutputMode::HueBandWeights), 2);
}

#[test]
fn hue_table_sizes() {
    assert_eq!(HUE_BAND_COUNT, 8);
    assert_eq!(PACKED_HUE_LUT_VEC4_COUNT, HUE_LUT_SIZE * 2);
}

#[test]
fn packs_each_entry_into_two_four_wide_vectors() {
    let table = vec![[1u32, 2, 3, 4, 5, 6, 7, 8], [10, 20, 30, 40, 50, 60, 70, 80]];
    let packed = pack_hue_lut_entries(&table);
    assert_eq!(
        packed,
        vec![[1, 2, 3, 4], [5, 6, 7, 8], [10, 20, 30, 40], [50, 60, 70, 80]]
    );
    let weights = vec![[0.125f32; 8]; HUE_LUT_SIZE];
    let packed = pack_hue_lut_entries(&weights);
    assert_eq!(packed.len(), PACKED_HUE_LUT_VEC4_COUNT);
    assert!(pack_hue_lut_entries::<u8>(&Vec::new()).is_empty());
}
