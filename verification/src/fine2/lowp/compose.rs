//! Porter-Duff composition of 8-bit premultiplied components.
//! See <https://www.w3.org/TR/compositing-1/#porterduffcompositingoperators>.

use vstd::prelude::*;
use crate::div255::div_255_spec;
use crate::fine2::lanes::{
    add_u16x32, add_u8x32, max_u16x32, min_u16x32, narrow_u16x32, normalized_mul_u8x32,
    splat_u16x32, splat_u8x32, sub_u8x32, widen_u8x32,
};
use crate::fine2::Splat4thExt;

verus! {

/// The layer composition functions.
#[derive(Copy, Clone, Debug, PartialEq, Eq, Structural)]
pub enum Compose {
    /// No regions are enabled.
    Clear,
    /// Only the source will be present.
    Copy,
    /// Only the destination will be present.
    Dest,
    /// The source is placed over the destination.
    SrcOver,
    /// The destination is placed over the source.
    DestOver,
    /// The parts of the source that overlap with the destination are placed.
    SrcIn,
    /// The parts of the destination that overlap with the source are placed.
    DestIn,
    /// The parts of the source that fall outside of the destination are placed.
    SrcOut,
    /// The parts of the destination that fall outside of the source are placed.
    DestOut,
    /// The parts of the source which overlap the destination replace the destination.
    SrcAtop,
    /// The parts of the destination which overlap the source replace the source.
    DestAtop,
    /// The non-overlapping regions of source and destination are combined.
    Xor,
    /// The sum of the source and the destination.
    Plus,
    /// Cross-fading; composed here as `SrcOver`.
    PlusLighter,
}

/// The factors `(fa, fb)` by which composition `mode` weighs the source and the
/// destination, given the source alpha `al_s` and the destination alpha `al_b`.
pub open spec fn compose_factors(mode: Compose, al_s: int, al_b: int) -> (int, int) {
    match mode {
        Compose::Clear => (0, 0),
        Compose::Copy => (255, 0),
        Compose::Dest => (0, 255),
        Compose::SrcOver => (255, 255 - al_s),
        Compose::DestOver => (255 - al_b, 255),
        Compose::SrcIn => (al_b, 0),
        Compose::DestIn => (0, al_s),
        Compose::SrcOut => (255 - al_b, 0),
        Compose::DestOut => (0, 255 - al_s),
        Compose::SrcAtop => (al_b, 255 - al_s),
        Compose::DestAtop => (255 - al_b, al_s),
        Compose::Xor => (255 - al_b, 255 - al_s),
        Compose::Plus => (255, 255),
        Compose::PlusLighter => (255, 255 - al_s),
    }
}

/// One composed component: the source component `src` (of a pixel with alpha
/// `src_alpha`) weighted by the coverage `mask`, composed by `mode` with the
/// destination component `bg` (of a pixel with alpha `bg_alpha`). `Plus`
/// saturates the sum at 255; the other modes wrap it to 8 bits.
pub open spec fn compose_channel(
    mode: Compose,
    src: int,
    src_alpha: int,
    bg: int,
    bg_alpha: int,
    mask: int,
) -> int {
    let al_s = div_255_spec(src_alpha * mask);
    let f = compose_factors(mode, al_s, bg_alpha);
    let s = div_255_spec(src * mask);
    let sum = div_255_spec(s * f.0) + div_255_spec(f.1 * bg);
    if mode == Compose::Plus {
        if sum > 255 {
            255
        } else {
            sum
        }
    } else {
        sum % 256
    }
}

/// The factor vectors `(fa, fb)` of `mode`.
fn factors(mode: Compose, al_s: [u8; 32], al_b: [u8; 32]) -> (r: ([u8; 32], [u8; 32]))
    ensures
        forall|i: int|
            0 <= i < 32 ==> r.0@[i] == compose_factors(mode, al_s@[i] as int, al_b@[i] as int).0
                && r.1@[i] == compose_factors(mode, al_s@[i] as int, al_b@[i] as int).1,
{
    let zero = splat_u8x32(0);
    let one = splat_u8x32(255);
    match mode {
        Compose::Clear => (zero, zero),
        Compose::Copy => (one, zero),
        Compose::Dest => (zero, one),
        Compose::SrcOver => (one, sub_u8x32(one, al_s)),
        Compose::DestOver => (sub_u8x32(one, al_b), one),
        Compose::SrcIn => (al_b, zero),
        Compose::DestIn => (zero, al_s),
        Compose::SrcOut => (sub_u8x32(one, al_b), zero),
        Compose::DestOut => (zero, sub_u8x32(one, al_s)),
        Compose::SrcAtop => (al_b, sub_u8x32(one, al_s)),
        Compose::DestAtop => (sub_u8x32(one, al_b), al_s),
        Compose::Xor => (sub_u8x32(one, al_b), sub_u8x32(one, al_s)),
        Compose::Plus => (one, one),
        Compose::PlusLighter => (one, sub_u8x32(one, al_s)),
    }
}

/// Compose the eight source pixels `src_c`, weighted by the coverage `mask`,
/// with the eight destination pixels `bg_c` by `mode`.
pub fn compose(mode: Compose, src_c: [u8; 32], bg_c: [u8; 32], mask: [u8; 32]) -> (r: [u8; 32])
    ensures
        forall|i: int|
            0 <= i < 32 ==> r@[i] == compose_channel(
                mode,
                src_c@[i] as int,
                src_c@[(i / 4) * 4 + 3] as int,
                bg_c@[i] as int,
                bg_c@[(i / 4) * 4 + 3] as int,
                mask@[i] as int,
            ),
{
    let al_b = bg_c.splat_4th();
    let al_s = normalized_mul_u8x32(src_c.splat_4th(), mask);
    let (fa, fb) = factors(mode, al_s, al_b);
    let src = normalized_mul_u8x32(src_c, mask);
    let a = normalized_mul_u8x32(src, fa);
    let b = normalized_mul_u8x32(fb, bg_c);
    if mode == Compose::Plus {
        // The sum of two 8-bit values fits in 16 bits; it is clamped to 255.
        let sum = add_u16x32(widen_u8x32(a), widen_u8x32(b));
        let clamped = max_u16x32(min_u16x32(sum, splat_u16x32(255)), splat_u16x32(0));
        let r = narrow_u16x32(clamped);
        assert forall|i: int| 0 <= i < 32 implies r@[i] == if a@[i] + b@[i] > 255 {
            255
        } else {
            a@[i] + b@[i]
        } by {
            assert(a@[i] + b@[i] < 65536);
        }
        r
    } else {
        add_u8x32(a, b)
    }
}

} // verus!

verus! {

/// At full coverage, `SrcOver` composition is plain source-over compositing.
pub proof fn lemma_src_over_composes_as_src_over(src: u8, src_alpha: u8, bg: u8, bg_alpha: u8)
    ensures
        compose_channel(Compose::SrcOver, src as int, src_alpha as int, bg as int, bg_alpha as int, 255)
            == crate::fine::fill::src_over_channel(bg as int, src as int, src_alpha as int) % 256,
{
    crate::div255::lemma_div_255_exact_on_multiples(src_alpha);
    crate::div255::lemma_div_255_exact_on_multiples(src);
    assert(src_alpha * 255 == 255 * src_alpha);
    assert(src * 255 == 255 * src);
    assert((255 - src_alpha) * bg == bg * (255 - src_alpha)) by (nonlinear_arith);
}

/// `PlusLighter` is composed exactly as `SrcOver`.
pub proof fn lemma_plus_lighter_is_src_over(src: u8, src_alpha: u8, bg: u8, bg_alpha: u8, mask: u8)
    ensures
        compose_channel(
            Compose::PlusLighter,
            src as int,
            src_alpha as int,
            bg as int,
            bg_alpha as int,
            mask as int,
        ) == compose_channel(
            Compose::SrcOver,
            src as int,
            src_alpha as int,
            bg as int,
            bg_alpha as int,
            mask as int,
        ),
{
}

/// `Clear` clears every component, whatever the coverage.
pub proof fn lemma_clear_clears(src: u8, src_alpha: u8, bg: u8, bg_alpha: u8, mask: u8)
    ensures
        compose_channel(Compose::Clear, src as int, src_alpha as int, bg as int, bg_alpha as int, mask as int)
            == 0,
{
    assert(div_255_spec(0) == 0);
    assert((div_255_spec(src * mask) * 0) == 0);
}

/// `Dest` keeps the destination, whatever the source and the coverage.
pub proof fn lemma_dest_keeps_destination(src: u8, src_alpha: u8, bg: u8, bg_alpha: u8, mask: u8)
    ensures
        compose_channel(Compose::Dest, src as int, src_alpha as int, bg as int, bg_alpha as int, mask as int)
            == bg,
{
    crate::div255::lemma_div_255_exact_on_multiples(bg);
    assert(255 * bg == bg * 255);
    assert(div_255_spec(div_255_spec(src * mask) * 0) == 0);
}

/// `Copy` at full coverage replaces the destination with the source.
pub proof fn lemma_copy_replaces(src: u8, src_alpha: u8, bg: u8, bg_alpha: u8)
    ensures
        compose_channel(Compose::Copy, src as int, src_alpha as int, bg as int, bg_alpha as int, 255)
            == src,
{
    crate::div255::lemma_div_255_exact_on_multiples(src);
    assert(div_255_spec(0 * bg) == 0);
}

/// A source-over composition through a zero coverage mask keeps the destination.
pub proof fn lemma_uncovered_src_over_keeps(src: u8, src_alpha: u8, bg: u8, bg_alpha: u8)
    ensures
        compose_channel(Compose::SrcOver, src as int, src_alpha as int, bg as int, bg_alpha as int, 0)
            == bg,
{
    crate::div255::lemma_div_255_exact_on_multiples(bg);
    assert(src_alpha * 0 == 0);
    assert(src * 0 == 0);
    assert(div_255_spec(0) == 0);
    assert(255 * bg == bg * 255);
}

/// `Plus` at full coverage adds the source to the destination and saturates
/// the sum at 255.
pub proof fn lemma_plus_saturates(src: u8, src_alpha: u8, bg: u8, bg_alpha: u8)
    ensures
        compose_channel(Compose::Plus, src as int, src_alpha as int, bg as int, bg_alpha as int, 255)
            == if src + bg > 255 {
            255
        } else {
            src + bg
        },
{
    crate::div255::lemma_div_255_exact_on_multiples(src);
    crate::div255::lemma_div_255_exact_on_multiples(bg);
    assert(src * 255 == 255 * src);
    assert(255 * bg == bg * 255);
}

/// At full coverage the source and its alpha enter composition unchanged.
proof fn lemma_full_coverage(src: u8, src_alpha: u8)
    ensures
        div_255_spec(src * 255) == src,
        div_255_spec(src_alpha * 255) == src_alpha,
{
    crate::div255::lemma_div_255_exact_on_multiples(src);
    crate::div255::lemma_div_255_exact_on_multiples(src_alpha);
    assert(src * 255 == 255 * src);
    assert(src_alpha * 255 == 255 * src_alpha);
}

/// Coverage scales the source: composing through coverage `mask` is composing
/// at full coverage the source and its alpha each weighted by `mask`.
pub proof fn lemma_coverage_scales_source(mode: Compose, src: u8, src_alpha: u8, bg: u8, bg_alpha: u8, mask: u8)
    ensures
        compose_channel(mode, src as int, src_alpha as int, bg as int, bg_alpha as int, mask as int)
            == compose_channel(
            mode,
            div_255_spec(src * mask),
            div_255_spec(src_alpha * mask),
            bg as int,
            bg_alpha as int,
            255,
        ),
{
    crate::div255::lemma_channel_product_bound(src as u16, mask as u16);
    crate::div255::lemma_channel_product_bound(src_alpha as u16, mask as u16);
    crate::div255::lemma_div_255_bound((src * mask) as u16);
    crate::div255::lemma_div_255_bound((src_alpha * mask) as u16);
    let s = div_255_spec(src * mask) as u8;
    let a = div_255_spec(src_alpha * mask) as u8;
    lemma_full_coverage(s, a);
}

/// `SrcIn` keeps the source only where the destination is: at full coverage
/// it is the source weighted by the destination alpha alone, whatever the
/// destination color. Over a fully transparent destination it gives 0.
pub proof fn lemma_src_in_weighs_by_destination_alpha(src: u8, src_alpha: u8, bg: u8, bg_alpha: u8)
    ensures
        compose_channel(Compose::SrcIn, src as int, src_alpha as int, bg as int, bg_alpha as int, 255)
            == div_255_spec(src * bg_alpha),
        bg_alpha == 0 ==> compose_channel(
            Compose::SrcIn,
            src as int,
            src_alpha as int,
            bg as int,
            bg_alpha as int,
            255,
        ) == 0,
{
    lemma_full_coverage(src, src_alpha);
    crate::div255::lemma_channel_product_bound(src as u16, bg_alpha as u16);
    crate::div255::lemma_div_255_bound((src * bg_alpha) as u16);
    assert(0 * bg == 0);
    assert(src * 0 == 0);
}

/// `SrcOut` keeps the source only where the destination is not: at full
/// coverage it is the source weighted by one minus the destination alpha.
pub proof fn lemma_src_out_weighs_by_destination_transparency(src: u8, src_alpha: u8, bg: u8, bg_alpha: u8)
    ensures
        compose_channel(Compose::SrcOut, src as int, src_alpha as int, bg as int, bg_alpha as int, 255)
            == div_255_spec(src * (255 - bg_alpha)),
{
    lemma_full_coverage(src, src_alpha);
    crate::div255::lemma_channel_product_bound(src as u16, (255 - bg_alpha) as u16);
    crate::div255::lemma_div_255_bound((src * (255 - bg_alpha)) as u16);
    assert(0 * bg == 0);
}

/// `SrcAtop` puts the source where the destination is and keeps the
/// destination where the source is not.
pub proof fn lemma_src_atop(src: u8, src_alpha: u8, bg: u8, bg_alpha: u8)
    ensures
        compose_channel(Compose::SrcAtop, src as int, src_alpha as int, bg as int, bg_alpha as int, 255)
            == (div_255_spec(src * bg_alpha) + div_255_spec((255 - src_alpha) * bg)) % 256,
{
    lemma_full_coverage(src, src_alpha);
}

/// `Xor` keeps each of the two only where the other is not.
pub proof fn lemma_xor(src: u8, src_alpha: u8, bg: u8, bg_alpha: u8)
    ensures
        compose_channel(Compose::Xor, src as int, src_alpha as int, bg as int, bg_alpha as int, 255)
            == (div_255_spec(src * (255 - bg_alpha)) + div_255_spec((255 - src_alpha) * bg)) % 256,
        compose_channel(Compose::Xor, src as int, src_alpha as int, bg as int, bg_alpha as int, 255)
            == compose_channel(Compose::Xor, bg as int, bg_alpha as int, src as int, src_alpha as int, 255),
{
    lemma_full_coverage(src, src_alpha);
    lemma_full_coverage(bg, bg_alpha);
    assert(src * (255 - bg_alpha) == (255 - bg_alpha) * src) by (nonlinear_arith);
    assert(bg * (255 - src_alpha) == (255 - src_alpha) * bg) by (nonlinear_arith);
}

/// Each `Dest*` mode is its `Src*` counterpart with source and destination
/// swapped, at full coverage.
pub proof fn lemma_dest_modes_swap_roles(src: u8, src_alpha: u8, bg: u8, bg_alpha: u8)
    ensures
        compose_channel(Compose::DestOver, src as int, src_alpha as int, bg as int, bg_alpha as int, 255)
            == compose_channel(Compose::SrcOver, bg as int, bg_alpha as int, src as int, src_alpha as int, 255),
        compose_channel(Compose::DestIn, src as int, src_alpha as int, bg as int, bg_alpha as int, 255)
            == compose_channel(Compose::SrcIn, bg as int, bg_alpha as int, src as int, src_alpha as int, 255),
        compose_channel(Compose::DestOut, src as int, src_alpha as int, bg as int, bg_alpha as int, 255)
            == compose_channel(Compose::SrcOut, bg as int, bg_alpha as int, src as int, src_alpha as int, 255),
        compose_channel(Compose::DestAtop, src as int, src_alpha as int, bg as int, bg_alpha as int, 255)
            == compose_channel(Compose::SrcAtop, bg as int, bg_alpha as int, src as int, src_alpha as int, 255),
{
    lemma_full_coverage(src, src_alpha);
    lemma_full_coverage(bg, bg_alpha);
    assert(src * (255 - bg_alpha) == (255 - bg_alpha) * src) by (nonlinear_arith);
    assert(bg * (255 - src_alpha) == (255 - src_alpha) * bg) by (nonlinear_arith);
    assert(src * bg_alpha == bg_alpha * src) by (nonlinear_arith);
    assert(bg * src_alpha == src_alpha * bg) by (nonlinear_arith);
    assert(src * 0 == 0);
    assert(bg * 0 == 0);
    assert(0 * src == 0);
    assert(0 * bg == 0);
    assert(255 * bg == bg * 255);
    assert(255 * src == src * 255);
}

} // verus!
