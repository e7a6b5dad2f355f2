use tone::render::preview::{preview_dimensions, MAX_PREVIEW_LONG_EDGE};

#[test]
fn calculates_preview_dimensions_for_common_shapes() {
    assert_eq!(preview_dimensions(4000, 2000), [2048, 1024]);
    assert_eq!(preview_dimensions(2000, 4000), [1024, 2048]);
    assert_eq!(preview_dimensions(3000, 3000), [2048, 2048]);
    assert_eq!(preview_dimensions(800, 600), [800, 600]);
    assert_eq!(preview_dimensions(50000, 10000), [2048, 410]);
}

#[test]
fn small_images_keep_their_size() {
    assert_eq!(preview_dimensions(1, 1), [1, 1]);
    assert_eq!(preview_dimensions(2048, 100), [2048, 100]);
    assert_eq!(preview_dimensions(2048, 2048), [2048, 2048]);
}

#[test]
fn long_edge_lands_on_the_limit() {
    assert_eq!(preview_dimensions(2049, 2049), [2048, 2048]);
    assert_eq!(preview_dimensions(u32::MAX, u32::MAX), [2048, 2048]);
    assert_eq!(preview_dimensions(2049, 1), [2048, 1]);
    assert_eq!(MAX_PREVIEW_LONG_EDGE, 2048);
}

#[test]
fn thin_edges_are_raised_to_one_pixel() {
    assert_eq!(preview_dimensions(u32::MAX, 1), [2048, 1]);
    assert_eq!(preview_dimensions(1, u32::MAX), [1, 2048]);
}

#[test]
fn exact_halves_round_away_from_zero_when_the_factor_is_exact() {
    // 4096 -> factor 0.5 exactly: 3 * 0.5 = 1.5 rounds to 2, 1 * 0.5 to 1.
    assert_eq!(preview_dimensions(4096, 3), [2048, 2]);
    assert_eq!(preview_dimensions(4096, 1), [2048, 1]);
    assert_eq!(preview_dimensions(12288, 9), [2048, 2]);
}

#[test]
fn halves_follow_binary64_rounding_of_the_factor() {
    // 2048 / 200704 is not representable; the product lands just below the
    // half, so the edge rounds down as the floating-point computation does.
    assert_eq!(preview_dimensions(200704, 147), [2048, 1]);
    assert_eq!(preview_dimensions(147, 200704), [1, 2048]);
    assert_eq!(preview_dimensions(200704, 1519), [2048, 15]);
}

fn float_preview_dimensions(width: u32, height: u32) -> [u32; 2] {
    let long_edge = width.max(height);
    if long_edge <= MAX_PREVIEW_LONG_EDGE {
        return [width, height];
    }
    let scale = MAX_PREVIEW_LONG_EDGE as f64 / long_edge as f64;
    [
        ((width as f64 * scale).round() as u32).max(1),
        ((height as f64 * scale).round() as u32).max(1),
    ]
}

#[test]
fn agrees_with_binary64_arithmetic_on_a_sweep() {
    let mut state: u64 = 0x9e37_79b9_7f4a_7c15;
    let mut next = || {
        state ^= state << 13;
        state ^= state >> 7;
        state ^= state << 17;
        state
    };
    for _ in 0..20000 {
        let long = 2049 + (next() % (u32::MAX as u64 - 2048)) as u32;
        let short = 1 + (next() % long as u64) as u32;
        assert_eq!(preview_dimensions(long, short), float_preview_dimensions(long, short));
        assert_eq!(preview_dimensions(short, long), float_preview_dimensions(short, long));
    }
    // Exact halves: long edges that are multiples of 4096, odd multiples of the cofactor.
    for k in 1..400u32 {
        let long = 4096 * k;
        for m in (1..4096u32).step_by(34) {
            let short = m * k;
            assert_eq!(preview_dimensions(long, short), float_preview_dimensions(long, short));
        }
    }
}
