//! Source-over blending of one RGBA pixel onto another.
//!
//! A pixel is four 8-bit channels in the order red, green, blue, alpha. Its
//! mathematical model is the `Seq<u8>` of those four channels.

use vstd::prelude::*;

verus! {

/// The combined alpha of `source` drawn over `target`, scaled by 255:
/// `255 * (sa + ta * (255 - sa) / 255)`.
pub open spec fn scaled_alpha(sa: int, ta: int) -> int {
    255 * sa + ta * (255 - sa)
}

/// The numerator of one blended colour channel on the same scale: the source
/// channel weighted by the source alpha plus the target channel weighted by
/// what the source leaves visible of the target.
pub open spec fn scaled_channel(sc: int, sa: int, tc: int, ta: int) -> int {
    255 * sc * sa + tc * ta * (255 - sa)
}

/// Alpha after blending: `sa + ta * (255 - sa) / 255`, truncated.
pub open spec fn merged_alpha(sa: int, ta: int) -> int {
    scaled_alpha(sa, ta) / 255
}

/// A colour channel after blending:
/// `(sc * sa + tc * ta * (255 - sa) / 255) / a_out`, truncated, where `a_out`
/// is the untruncated combined alpha. Zero where both pixels are fully
/// transparent.
pub open spec fn merged_channel(sc: int, sa: int, tc: int, ta: int) -> int {
    if scaled_alpha(sa, ta) == 0 {
        0
    } else {
        scaled_channel(sc, sa, tc, ta) / scaled_alpha(sa, ta)
    }
}

/// Whether `p` is the model of a pixel: four channels.
pub open spec fn is_pixel(p: Seq<u8>) -> bool {
    p.len() == 4
}

/// `source` drawn over `target`.
pub open spec fn merged(source: Seq<u8>, target: Seq<u8>) -> Seq<u8> {
    seq![
        merged_channel(source[0] as int, source[3] as int, target[0] as int, target[3] as int) as u8,
        merged_channel(source[1] as int, source[3] as int, target[1] as int, target[3] as int) as u8,
        merged_channel(source[2] as int, source[3] as int, target[2] as int, target[3] as int) as u8,
        merged_alpha(source[3] as int, target[3] as int) as u8,
    ]
}

/// The blended alpha is an 8-bit value, and it is zero exactly when both
/// inputs are fully transparent.
pub proof fn lemma_merged_alpha_range(sa: int, ta: int)
    requires
        0 <= sa <= 255,
        0 <= ta <= 255,
    ensures
        0 <= scaled_alpha(sa, ta) <= 255 * 255,
        0 <= merged_alpha(sa, ta) <= 255,
        scaled_alpha(sa, ta) == 0 <==> sa == 0 && ta == 0,
{
    assert(0 <= ta * (255 - sa) <= 255 * (255 - sa)) by (nonlinear_arith)
        requires
            0 <= sa <= 255,
            0 <= ta <= 255,
    ;
    assert(ta * (255 - sa) == 0 ==> ta == 0 || sa == 255) by (nonlinear_arith);
}

/// A blended colour channel is an 8-bit value: it is a weighted mean of the
/// two input channels.
pub proof fn lemma_merged_channel_range(sc: int, sa: int, tc: int, ta: int)
    requires
        0 <= sc <= 255,
        0 <= sa <= 255,
        0 <= tc <= 255,
        0 <= ta <= 255,
    ensures
        0 <= scaled_channel(sc, sa, tc, ta) <= 255 * scaled_alpha(sa, ta),
        0 <= merged_channel(sc, sa, tc, ta) <= 255,
{
    lemma_merged_alpha_range(sa, ta);
    let w = ta * (255 - sa);
    assert(0 <= w) by (nonlinear_arith)
        requires
            w == ta * (255 - sa),
            0 <= sa <= 255,
            0 <= ta <= 255,
    ;
    assert(0 <= 255 * sc * sa <= 255 * 255 * sa) by (nonlinear_arith)
        requires
            0 <= sc <= 255,
            0 <= sa <= 255,
    ;
    assert(0 <= tc * w <= 255 * w) by (nonlinear_arith)
        requires
            0 <= tc <= 255,
            0 <= w,
    ;
    assert(tc * ta * (255 - sa) == tc * w) by (nonlinear_arith)
        requires
            w == ta * (255 - sa),
    ;
    let n = scaled_channel(sc, sa, tc, ta);
    let d = scaled_alpha(sa, ta);
    if d != 0 {
        assert(0 <= n / d <= 255) by (nonlinear_arith)
            requires
                0 <= n <= 255 * d,
                0 < d,
        ;
    }
}

/// Merges the pixel `source` onto `target` by source-over blending.
///
/// Two fully transparent pixels give transparent black.
pub fn merge_rgba(source: [u8; 4], target: [u8; 4]) -> (merged_px: [u8; 4])
    ensures
        merged_px@ == merged(source@, target@),
{
    let sa: u32 = source[3] as u32;
    let ta: u32 = target[3] as u32;
    let weight: u32 = blend_weight(sa, ta);
    proof {
        lemma_merged_alpha_range(sa as int, ta as int);
        lemma_merged_channel_range(source[0] as int, sa as int, target[0] as int, ta as int);
        lemma_merged_channel_range(source[1] as int, sa as int, target[1] as int, ta as int);
        lemma_merged_channel_range(source[2] as int, sa as int, target[2] as int, ta as int);
    }
    if weight == 0 {
        let out: [u8; 4] = [0, 0, 0, 0];
        assert(out@ =~= merged(source@, target@));
        return out;
    }
    let r: u32 = blend_channel(source[0], sa, target[0], ta, weight);
    let g: u32 = blend_channel(source[1], sa, target[1], ta, weight);
    let b: u32 = blend_channel(source[2], sa, target[2], ta, weight);
    let a: u32 = weight / 255;
    let out: [u8; 4] = [r as u8, g as u8, b as u8, a as u8];
    assert(out@ =~= merged(source@, target@));
    out
}

/// The combined alpha of the blend, scaled by 255.
fn blend_weight(sa: u32, ta: u32) -> (weight: u32)
    requires
        sa <= 255,
        ta <= 255,
    ensures
        weight == scaled_alpha(sa as int, ta as int),
        weight <= 255 * 255,
{
    proof {
        lemma_merged_alpha_range(sa as int, ta as int);
    }
    let rest: u32 = ta * (255 - sa);
    255 * sa + rest
}

/// One colour channel of the blend, for a pair of pixels that are not both
/// fully transparent.
fn blend_channel(sc: u8, sa: u32, tc: u8, ta: u32, weight: u32) -> (c: u32)
    requires
        sa <= 255,
        ta <= 255,
        weight == scaled_alpha(sa as int, ta as int),
        weight != 0,
    ensures
        c == merged_channel(sc as int, sa as int, tc as int, ta as int),
        c <= 255,
{
    proof {
        lemma_merged_alpha_range(sa as int, ta as int);
        lemma_merged_channel_range(sc as int, sa as int, tc as int, ta as int);
        assert(0 <= 255 * (sc as int) * (sa as int) <= 255 * 255 * 255) by (nonlinear_arith)
            requires
                0 <= sc <= 255,
                0 <= sa <= 255,
        ;
        assert(0 <= (ta as int) * (255 - sa) <= 255 * 255) by (nonlinear_arith)
            requires
                0 <= sa <= 255,
                0 <= ta <= 255,
        ;
        assert(0 <= (tc as int) * ((ta as int) * (255 - sa)) <= 255 * 255 * 255)
            by (nonlinear_arith)
            requires
                0 <= tc <= 255,
                0 <= (ta as int) * (255 - sa) <= 255 * 255,
        ;
        assert((tc as int) * (ta as int) * (255 - sa) == (tc as int) * ((ta as int) * (255 - sa)))
            by (nonlinear_arith);
    }
    let from_source: u32 = 255 * (sc as u32) * sa;
    let rest: u32 = ta * (255 - sa);
    let from_target: u32 = (tc as u32) * rest;
    (from_source + from_target) / weight
}

/// A fully transparent source leaves the pixel under it unchanged.
///
/// The one pixel that does change is left out: a fully transparent pixel that
/// still carries a colour becomes transparent black.
pub proof fn lemma_transparent_source(source: Seq<u8>, target: Seq<u8>)
    requires
        is_pixel(source),
        is_pixel(target),
        source[3] == 0,
        target[3] != 0 || (target[0] == 0 && target[1] == 0 && target[2] == 0),
    ensures
        merged(source, target) == target,
{
    let ta = target[3] as int;
    assert(scaled_alpha(0, ta) == ta * 255);
    lemma_channel_from_target(source[0] as int, target[0] as int, ta);
    lemma_channel_from_target(source[1] as int, target[1] as int, ta);
    lemma_channel_from_target(source[2] as int, target[2] as int, ta);
    assert(merged(source, target) =~= target);
}

/// Under a fully transparent source a colour channel is the target's, where
/// the target is not fully transparent.
proof fn lemma_channel_from_target(sc: int, tc: int, ta: int)
    requires
        0 <= tc <= 255,
        0 <= ta <= 255,
    ensures
        ta != 0 ==> merged_channel(sc, 0, tc, ta) == tc,
        ta == 0 ==> merged_channel(sc, 0, tc, ta) == 0,
        merged_alpha(0, ta) == ta,
{
    assert(scaled_alpha(0, ta) == ta * 255);
    assert(255 * sc * 0 == 0) by (nonlinear_arith);
    assert(tc * ta * (255 - 0) == tc * (ta * 255)) by (nonlinear_arith);
    if ta != 0 {
        assert((tc * (ta * 255)) / (ta * 255) == tc) by (nonlinear_arith)
            requires
                0 < ta * 255,
        ;
    }
}

/// A fully opaque source replaces a fully transparent target.
pub proof fn lemma_opaque_source(source: Seq<u8>, target: Seq<u8>)
    requires
        is_pixel(source),
        is_pixel(target),
        source[3] == 255,
        target[3] == 0,
    ensures
        merged(source, target) == source,
{
    lemma_channel_from_source(source[0] as int, 255, target[0] as int);
    lemma_channel_from_source(source[1] as int, 255, target[1] as int);
    lemma_channel_from_source(source[2] as int, 255, target[2] as int);
    assert(merged(source, target) =~= source);
}

/// Over a fully transparent target a colour channel and the alpha are the
/// source's, where the source is not fully transparent.
proof fn lemma_channel_from_source(sc: int, sa: int, tc: int)
    requires
        0 <= sc <= 255,
        0 < sa <= 255,
    ensures
        merged_channel(sc, sa, tc, 0) == sc,
        merged_alpha(sa, 0) == sa,
{
    assert(scaled_alpha(sa, 0) == 255 * sa);
    assert(tc * 0 * (255 - sa) == 0) by (nonlinear_arith);
    assert(255 * sc * sa == sc * (255 * sa)) by (nonlinear_arith);
    assert((sc * (255 * sa)) / (255 * sa) == sc) by (nonlinear_arith)
        requires
            0 < 255 * sa,
    ;
}

/// Every channel of a merged pixel is an 8-bit value that fits without
/// clamping, and two fully transparent pixels merge to transparent black.
pub proof fn lemma_merged_in_range(source: Seq<u8>, target: Seq<u8>)
    requires
        is_pixel(source),
        is_pixel(target),
    ensures
        is_pixel(merged(source, target)),
        forall|i: int|
            0 <= i < 3 ==> merged(source, target)[i] == merged_channel(
                source[i] as int,
                source[3] as int,
                target[i] as int,
                target[3] as int,
            ),
        merged(source, target)[3] == merged_alpha(source[3] as int, target[3] as int),
        source[3] == 0 && target[3] == 0 ==> merged(source, target) == seq![0u8, 0u8, 0u8, 0u8],
{
    let sa = source[3] as int;
    let ta = target[3] as int;
    lemma_merged_alpha_range(sa, ta);
    lemma_merged_channel_range(source[0] as int, sa, target[0] as int, ta);
    lemma_merged_channel_range(source[1] as int, sa, target[1] as int, ta);
    lemma_merged_channel_range(source[2] as int, sa, target[2] as int, ta);
    if sa == 0 && ta == 0 {
        assert(merged(source, target) =~= seq![0u8, 0u8, 0u8, 0u8]);
    }
}

/// The sum of two 8-bit values, held at 255.
pub open spec fn saturating_sum(a: u8, b: u8) -> u8 {
    if a + b > 255 {
        255u8
    } else {
        (a + b) as u8
    }
}

/// The pixel `existing` painted with `colour` at the given coverage: the
/// colour replaces the pixel's colour, and the coverage is added to its alpha,
/// which stays at 255 once it is reached.
///
/// This is the rule for glyph coverage. It is not a blend: overlapping
/// outlines of one colour add up.
pub open spec fn painted(existing: Seq<u8>, colour: Seq<u8>, coverage: u8) -> Seq<u8> {
    seq![colour[0], colour[1], colour[2], saturating_sum(existing[3], coverage)]
}

/// Paints `existing` with `colour` at the given coverage.
pub fn paint(existing: [u8; 4], colour: [u8; 3], coverage: u8) -> (px: [u8; 4])
    ensures
        px@ == painted(existing@, colour@, coverage),
{
    let sum: u16 = existing[3] as u16 + coverage as u16;
    let alpha: u8 = if sum > 255 {
        255
    } else {
        sum as u8
    };
    let px: [u8; 4] = [colour[0], colour[1], colour[2], alpha];
    assert(px@ =~= painted(existing@, colour@, coverage));
    px
}

} // verus!
