//! Sizing of the downscaled preview that is rendered while grading.
//!
//! An image whose long edge exceeds `MAX_PREVIEW_LONG_EDGE` is scaled by the
//! factor `MAX_PREVIEW_LONG_EDGE / long_edge`, with the arithmetic done in
//! IEEE 754 binary64: the factor is the quotient rounded to the nearest
//! binary64 value, each side times the factor is again rounded to the nearest
//! binary64 value, and that product is rounded to an integer, halves away from
//! zero. `binary64` holds the exact integer model of those roundings.

use vstd::prelude::*;
use vstd::arithmetic::power2::{pow2, lemma2_to64, lemma2_to64_rest, lemma_pow2_pos, lemma_pow2_unfold};
use crate::render::binary64::{
    binade_scale, in_binade, nearest_binary64, nearest_mantissa, pow2_u128, round_half_up,
    lemma_binade_scale, lemma_mantissa_range, lemma_pow2_127, lemma_round_half_even_bounds,
};

verus! {

/// Longest edge, in pixels, of the grading preview.
pub const MAX_PREVIEW_LONG_EDGE: u32 = 2048;

/// The longer of the two edges.
pub open spec fn long_edge_of(width: nat, height: nat) -> nat {
    if width >= height { width } else { height }
}

/// `side * (MAX_PREVIEW_LONG_EDGE / long_edge)` in binary64 arithmetic,
/// rounded to an integer with halves away from zero.
pub open spec fn scaled_edge(side: nat, long_edge: nat) -> nat {
    let factor_mantissa = nearest_mantissa(2048, long_edge);
    let factor_scale = binade_scale(2048, long_edge);
    let product_mantissa = nearest_mantissa(side * factor_mantissa, pow2(factor_scale));
    let product_scale = binade_scale(side * factor_mantissa, pow2(factor_scale));
    round_half_up(product_mantissa, pow2(product_scale))
}

/// A scaled edge, raised to one pixel where it would round to zero.
pub open spec fn preview_edge(side: nat, long_edge: nat) -> nat {
    let edge = scaled_edge(side, long_edge);
    if edge == 0 { 1 } else { edge }
}

/// The preview size of a `width` x `height` image: the image's own size when
/// its long edge fits in `MAX_PREVIEW_LONG_EDGE`, else both edges scaled down
/// so that the long edge becomes `MAX_PREVIEW_LONG_EDGE`.
pub open spec fn spec_preview_dimensions(width: nat, height: nat) -> (nat, nat) {
    let long_edge = long_edge_of(width, height);
    if long_edge <= 2048 {
        (width, height)
    } else {
        (preview_edge(width, long_edge), preview_edge(height, long_edge))
    }
}

/// Facts about the binary64 scale factor `2048 / long_edge`.
proof fn lemma_scale_factor(long_edge: nat)
    requires
        1 <= long_edge <= u32::MAX,
    ensures
        ({
            let m = nearest_mantissa(2048, long_edge);
            let a = pow2(binade_scale(2048, long_edge));
            &&& in_binade(2048, long_edge, binade_scale(2048, long_edge))
            &&& pow2(52) <= m <= pow2(53)
            &&& 0x200_0000_0000 * long_edge <= a
            &&& a < 0x400_0000_0000_0000_0000
            &&& 4096 * a <= 2 * long_edge * m + long_edge
            &&& 2 * long_edge * m <= 4096 * a + long_edge
        }),
{
    lemma2_to64();
    lemma2_to64_rest();
    lemma_pow2_127();
    assert(2048 < pow2(53) * long_edge) by (nonlinear_arith)
        requires
            long_edge >= 1,
            pow2(53) == 0x20_0000_0000_0000,
    ;
    lemma_binade_scale(2048, long_edge);
    let k = binade_scale(2048, long_edge);
    let a = pow2(k);
    let m = nearest_mantissa(2048, long_edge);
    lemma_mantissa_range(2048, long_edge, k);
    lemma_round_half_even_bounds(2048 * a, long_edge);
    assert(a < 0x400_0000_0000_0000_0000) by (nonlinear_arith)
        requires
            2048 * a < pow2(53) * long_edge,
            long_edge <= u32::MAX,
            pow2(53) == 0x20_0000_0000_0000,
    ;
}

/// Error bounds of the binary64 product `side * factor`: it lies within a
/// tiny fraction of a pixel of `side * 2048 / long_edge`, so the long edge
/// lands exactly on 2048 and no edge exceeds it.
proof fn lemma_scaled_edge(side: nat, long_edge: nat)
    requires
        1 <= side <= long_edge <= u32::MAX,
    ensures
        ({
            let m1 = nearest_mantissa(2048, long_edge);
            let a = pow2(binade_scale(2048, long_edge));
            let p = side * m1;
            let k2 = binade_scale(p, a);
            &&& 0 < p < pow2(53) * a
            &&& p <= 0x20_0000_0000_0000 * 0x1_0000_0000
            &&& 0 < a <= pow2(74)
            &&& 2 <= pow2(k2) < 0x800_0000_0000_0000_0000
            &&& pow2(52) <= nearest_mantissa(p, a) <= pow2(53)
            &&& scaled_edge(side, long_edge) <= 2048
            &&& side == long_edge ==> scaled_edge(side, long_edge) == 2048
        }),
{
    lemma2_to64();
    lemma2_to64_rest();
    lemma_pow2_127();
    lemma_scale_factor(long_edge);
    let l = long_edge;
    let m1 = nearest_mantissa(2048, l);
    let a = pow2(binade_scale(2048, l));
    let p = side * m1;
    assert(0 < p <= 0x20_0000_0000_0000 * 0x1_0000_0000 && p <= l * m1 && pow2(52) <= p) by (nonlinear_arith)
        requires
            1 <= side <= l <= u32::MAX,
            pow2(52) <= m1 <= pow2(53),
            pow2(52) == 0x10_0000_0000_0000,
            pow2(53) == 0x20_0000_0000_0000,
            p == side * m1,
    ;
    assert(p < pow2(53) * a) by (nonlinear_arith)
        requires
            p <= 0x20_0000_0000_0000 * 0x1_0000_0000,
            0x200_0000_0000 * l <= a,
            l >= 1,
            pow2(53) == 0x20_0000_0000_0000,
    ;
    lemma_binade_scale(p, a);
    let k2 = binade_scale(p, a);
    let b = pow2(k2);
    let m2 = nearest_mantissa(p, a);
    lemma_mantissa_range(p, a, k2);
    lemma_round_half_even_bounds(p * b, a);
    lemma_pow2_pos(k2);
    // The product's scale is at least one: a scale of zero would need
    // p >= 2^52 * a >= 2^93 * l, but p <= 2^53 * l.
    if k2 == 0 {
        assert(pow2(52) * a <= p * b);
        assert(false) by (nonlinear_arith)
            requires
                pow2(52) * a <= p * b,
                b == 1,
                p <= l * m1,
                m1 <= pow2(53),
                0x200_0000_0000 * l <= a,
                l >= 1,
                pow2(52) == 0x10_0000_0000_0000,
                pow2(53) == 0x20_0000_0000_0000,
        ;
    }
    lemma_pow2_unfold(k2);
    assert(b >= 2);
    assert(b < 2 * a) by (nonlinear_arith)
        requires
            p * b < pow2(53) * a,
            pow2(52) <= p,
            pow2(53) == 2 * pow2(52),
            a > 0,
    ;
    // l * b + a < a * b, because a >= 2^41 * l and b >= 2.
    assert(l * b + a < a * b) by (nonlinear_arith)
        requires
            0x200_0000_0000 * l <= a,
            b >= 2,
            l >= 1,
    ;
    // Upper bound: 2 * m2 < 4097 * b.
    assert(2 * a * m2 <= 4096 * a * b + l * b + a) by (nonlinear_arith)
        requires
            2 * a * m2 <= 2 * (p * b) + a,
            p <= l * m1,
            2 * l * m1 <= 4096 * a + l,
            b >= 0,
    ;
    assert(2 * m2 < 4097 * b) by (nonlinear_arith)
        requires
            2 * a * m2 <= 4096 * a * b + l * b + a,
            l * b + a < a * b,
            a > 0,
    ;
    let e = round_half_up(m2, b);
    assert(e <= 2048) by (nonlinear_arith)
        requires
            e == (2 * m2 + b) / (2 * b),
            2 * m2 < 4097 * b,
            b > 0,
    ;
    assert(e == scaled_edge(side, l));
    if side == l {
        assert(2 * m2 > 4095 * b) by (nonlinear_arith)
            requires
                2 * (p * b) <= 2 * a * m2 + a,
                p == l * m1,
                4096 * a <= 2 * l * m1 + l,
                l * b + a < a * b,
                a > 0,
                b > 0,
        ;
        assert(e >= 2048) by (nonlinear_arith)
            requires
                e == (2 * m2 + b) / (2 * b),
                2 * m2 > 4095 * b,
                b > 0,
        ;
    }
}

/// The scaled size of one edge, for a long edge above the preview limit.
fn scaled_preview_edge(side: u32, long_edge: u32) -> (edge: u32)
    requires
        1 <= side <= long_edge,
    ensures
        edge == scaled_edge(side as nat, long_edge as nat),
        edge <= MAX_PREVIEW_LONG_EDGE,
{
    proof {
        lemma2_to64();
        lemma2_to64_rest();
        lemma_pow2_127();
        lemma_scale_factor(long_edge as nat);
        lemma_scaled_edge(side as nat, long_edge as nat);
        assert(2048 < pow2(53) * long_edge) by (nonlinear_arith)
            requires
                long_edge >= 1,
                pow2(53) == 0x20_0000_0000_0000,
        ;
    }
    let (factor_mantissa, factor_scale) = nearest_binary64(2048, long_edge as u128);
    let a = pow2_u128(factor_scale);
    let p = side as u128 * factor_mantissa;
    let (product_mantissa, product_scale) = nearest_binary64(p, a);
    let b = pow2_u128(product_scale);
    let edge = (2 * product_mantissa + b) / (2 * b);
    edge as u32
}

/// The size of the grading preview of a `width` x `height` image.
pub fn preview_dimensions(width: u32, height: u32) -> (dims: [u32; 2])
    requires
        width > 0,
        height > 0,
    ensures
        dims[0] == spec_preview_dimensions(width as nat, height as nat).0,
        dims[1] == spec_preview_dimensions(width as nat, height as nat).1,
{
    let long_edge = if width >= height { width } else { height };
    if long_edge <= MAX_PREVIEW_LONG_EDGE {
        return [width, height];
    }
    let w = scaled_preview_edge(width, long_edge);
    let h = scaled_preview_edge(height, long_edge);
    [if w == 0 { 1 } else { w }, if h == 0 { 1 } else { h }]
}

/// The preview keeps small images as they are; a larger image is scaled so
/// that its long edge is exactly `MAX_PREVIEW_LONG_EDGE`, both edges stay
/// between one pixel and `MAX_PREVIEW_LONG_EDGE`, and the orientation
/// (landscape, portrait or square) is kept.
pub proof fn lemma_preview_dimensions_fit(width: nat, height: nat)
    requires
        1 <= width <= u32::MAX,
        1 <= height <= u32::MAX,
    ensures
        ({
            let (pw, ph) = spec_preview_dimensions(width, height);
            &&& long_edge_of(width, height) <= 2048 ==> pw == width && ph == height
            &&& long_edge_of(width, height) > 2048 ==> {
                &&& 1 <= pw <= 2048
                &&& 1 <= ph <= 2048
                &&& long_edge_of(pw, ph) == 2048
            }
            &&& width >= height ==> pw >= ph
            &&& height >= width ==> ph >= pw
        }),
{
    let l = long_edge_of(width, height);
    if l > 2048 {
        lemma_scaled_edge(width, l);
        lemma_scaled_edge(height, l);
    }
}

} // verus!
