use tone::color::DebugOutputMode;
use tone::render::engine::{preview_workgroups, RenderCounters, RenderSession};
use tone::render::texture::{decode_image_bytes, DecodedImage};
use tone::render::RenderTiming;

#[test]
fn counters_prove_parameter_updates_do_not_upload_source() {
    let mut counters = RenderCounters::default();
    counters.source_uploads += 1;
    let before = counters.source_uploads;
    counters.param_updates += 1;
    counters.preview_dispatches += 1;
    assert_eq!(counters.source_uploads, before);
}

fn decoded(width: u32, height: u32) -> Result<DecodedImage, image::ImageError> {
    Ok(DecodedImage {
        rgba: vec![0; 4 * width as usize * height as usize],
        width,
        height,
        decode_ms: 3,
    })
}

fn failed() -> Result<DecodedImage, image::ImageError> {
    decode_image_bytes(b"not an image")
}

#[test]
fn session_without_image_reports_no_image_loaded() {
    let mut session = RenderSession::new();
    assert_eq!(session.record_update(), None);
    session.set_identity_preview(true);
    session.set_identity_preview(false);
    assert_eq!(session.counters(), RenderCounters::default());
    assert_eq!(session.state().unwrap_err(), "no image loaded");
}

#[test]
fn session_counts_uploads_updates_and_dispatches() {
    let mut session = RenderSession::new();
    let (image, extent, groups) = session.record_load(decoded(4000, 3000)).unwrap();
    assert_eq!((image.width, image.height, image.decode_ms), (4000, 3000, 3));
    assert_eq!((extent.preview_width, extent.preview_height), (2048, 1536));
    assert_eq!(groups, [256, 192]);
    session.set_debug_output(DebugOutputMode::LuminanceMask);
    assert_eq!(session.record_update(), Some((extent, [256, 192])));
    let state = session.state().unwrap();
    assert_eq!(state.source_uploads, 1);
    assert_eq!(state.param_updates, 1);
    assert_eq!(state.preview_dispatches, 2);
    assert_eq!((state.source_width, state.source_height), (4000, 3000));
    assert_eq!((state.preview_width, state.preview_height), (2048, 1536));
    assert_eq!(state.debug_output, DebugOutputMode::LuminanceMask);
    assert!(!state.identity_preview);
    assert_eq!(state.tiles.len(), 4 * 3);
}

#[test]
fn params_given_before_an_image_are_kept_but_not_counted() {
    let mut session = RenderSession::new();
    session.set_debug_output(DebugOutputMode::HueBandWeights);
    assert_eq!(session.record_update(), None);
    assert_eq!(session.state().unwrap_err(), "no image loaded");
    session.record_load(decoded(800, 600)).unwrap();
    let state = session.state().unwrap();
    assert_eq!(state.debug_output, DebugOutputMode::HueBandWeights);
    assert!(!state.identity_preview);
    assert_eq!(
        (state.source_uploads, state.param_updates, state.preview_dispatches),
        (1, 0, 1)
    );
}

#[test]
fn failed_load_leaves_the_session_unchanged() {
    let mut session = RenderSession::new();
    assert!(session.record_load(failed()).is_err());
    assert_eq!(session.state().unwrap_err(), "no image loaded");
    assert_eq!(session.counters(), RenderCounters::default());
    session.record_load(decoded(10, 20)).unwrap();
    session.set_debug_output(DebugOutputMode::LuminanceMask);
    let before = session.counters();
    assert!(session.record_load(failed()).is_err());
    assert_eq!(session.counters(), before);
    let state = session.state().unwrap();
    assert_eq!((state.source_width, state.source_height), (10, 20));
    assert_eq!(state.debug_output, DebugOutputMode::LuminanceMask);
}

#[test]
fn identity_preview_hides_debug_output() {
    let mut session = RenderSession::new();
    session.record_load(decoded(10, 10)).unwrap();
    session.set_debug_output(DebugOutputMode::HueBandWeights);
    session.set_identity_preview(true);
    let state = session.state().unwrap();
    assert!(state.identity_preview);
    assert_eq!(state.debug_output, DebugOutputMode::Off);
    assert_eq!(session.debug_output(), DebugOutputMode::HueBandWeights);
    session.set_identity_preview(false);
    assert_eq!(session.state().unwrap().debug_output, DebugOutputMode::HueBandWeights);
}

#[test]
fn dispatches_are_uploads_plus_updates() {
    let mut session = RenderSession::new();
    session.record_load(decoded(3000, 2000)).unwrap();
    for _ in 0..5 {
        session.record_update();
    }
    session.record_load(decoded(100, 100)).unwrap();
    session.record_update();
    let c = session.counters();
    assert_eq!((c.source_uploads, c.param_updates, c.preview_dispatches), (2, 6, 8));
    let state = session.state().unwrap();
    assert_eq!((state.preview_width, state.preview_height), (100, 100));
}

#[test]
fn workgroups_round_up() {
    assert_eq!(preview_workgroups(2048, 1536), [256, 192]);
    assert_eq!(preview_workgroups(1, 9), [1, 2]);
    assert_eq!(preview_workgroups(0, 8), [0, 1]);
}

#[test]
fn timing_defaults_to_zero() {
    let t = RenderTiming::default();
    assert_eq!(t.decode_ms + t.source_upload_ms + t.preview_dispatch_ms + t.param_update_ms + t.tile_render_ms, 0);
}
