//! Compositing a color source over columns of a wide tile through coverage masks.

use vstd::prelude::*;
use vstd::arithmetic::mul::lemma_mul_inequality;
use crate::div255::{
    div_255, div_255_spec, lemma_channel_product_bound, lemma_div_255_bound,
    lemma_div_255_exact_on_multiples, lemma_div_255_monotonic,
};
use crate::fine::{premultiplied_source, ColorSource, TILE_HEIGHT_COMPONENTS};

verus! {

/// The coverage-weighted source-over of one component:
/// `div_255(bg * (255 - div_255(mask * src_alpha)) + src * mask)`.
pub open spec fn strip_channel(bg: int, src: int, src_alpha: int, mask: int) -> int {
    div_255_spec(bg * (255 - div_255_spec(mask * src_alpha)) + src * mask)
}

/// The sum that `strip_channel` divides by 255.
pub open spec fn strip_channel_sum(bg: int, src: int, src_alpha: int, mask: int) -> int {
    bg * (255 - div_255_spec(mask * src_alpha)) + src * mask
}

/// The number of pixels processed: those of the columns for which both a full
/// column of `target` and a full column of masks are present.
pub open spec fn strip_pixels(target_len: int, alphas_len: int) -> int {
    let cols = target_len / TILE_HEIGHT_COMPONENTS as int;
    let mask_cols = alphas_len / 4;
    (if cols < mask_cols {
        cols
    } else {
        mask_cols
    }) * 4
}

/// Whether every sum of the strip composite stays within the range of `div_255`.
pub open spec fn strip_fits<C: ColorSource>(target: Seq<u8>, src: C, alphas: Seq<u8>) -> bool {
    forall|k: int|
        0 <= k < strip_pixels(target.len() as int, alphas.len() as int) * 4
            ==> #[trigger] strip_channel_sum(
            target[k] as int,
            src.color(k / 4)[k % 4] as int,
            src.color(k / 4)[3] as int,
            alphas[k / 4] as int,
        ) < 65280
}

/// Composite the colors of `color_iter` over the columns of `target`, each pixel
/// weighted by its coverage in `alphas` (one mask value per pixel, column by
/// column). Only columns with both full pixels and full masks are processed;
/// the rest of `target` is left unchanged.
#[verifier::rlimit(40)]
pub fn src_over<C: ColorSource>(target: &mut [u8], color_iter: &C, alphas: &[u8])
    requires
        color_iter.has_colors(strip_pixels(old(target)@.len() as int, alphas@.len() as int)),
        strip_fits(old(target)@, *color_iter, alphas@),
    ensures
        final(target)@.len() == old(target)@.len(),
        forall|k: int|
            0 <= k < final(target)@.len() ==> #[trigger] final(target)@[k] == if k < strip_pixels(
                old(target)@.len() as int,
                alphas@.len() as int,
            ) * 4 {
                strip_channel(
                    old(target)@[k] as int,
                    color_iter.color(k / 4)[k % 4] as int,
                    color_iter.color(k / 4)[3] as int,
                    alphas@[k / 4] as int,
                )
            } else {
                old(target)@[k] as int
            },
{
    let cols = target.len() / TILE_HEIGHT_COMPONENTS;
    let mask_cols = alphas.len() / 4;
    let n = (if cols < mask_cols {
        cols
    } else {
        mask_cols
    }) * 4;
    let mut p: usize = 0;
    while p < n
        invariant
            n == strip_pixels(old(target)@.len() as int, alphas@.len() as int),
            p <= n,
            n <= alphas@.len(),
            target@.len() == old(target)@.len(),
            color_iter.has_colors(n as int),
            strip_fits(old(target)@, *color_iter, alphas@),
            forall|k: int|
                0 <= k < target@.len() ==> #[trigger] target@[k] == if k < p * 4 {
                    strip_channel(
                        old(target)@[k] as int,
                        color_iter.color(k / 4)[k % 4] as int,
                        color_iter.color(k / 4)[3] as int,
                        alphas@[k / 4] as int,
                    )
                } else {
                    old(target)@[k] as int
                },
        decreases n - p,
    {
        proof {
            color_iter.lemma_has_fewer_colors(p + 1, n as int);
        }
        let src_c = color_iter.color_at(p);
        let mask_a: u16 = alphas[p] as u16;
        proof {
            lemma_channel_product_bound(mask_a, src_c[3] as u16);
            lemma_div_255_bound((mask_a * src_c[3]) as u16);
        }
        let inv_src_a_mask_a: u16 = 255 - div_255(mask_a * src_c[3] as u16);
        let mut i: usize = 0;
        while i < 4
            invariant
                n == strip_pixels(old(target)@.len() as int, alphas@.len() as int),
                p < n,
                n <= alphas@.len(),
                i <= 4,
                target@.len() == old(target)@.len(),
                src_c@ == color_iter.color(p as int),
                mask_a == alphas@[p as int],
                inv_src_a_mask_a == 255 - div_255_spec(mask_a * src_c@[3]),
                inv_src_a_mask_a <= 255,
                strip_fits(old(target)@, *color_iter, alphas@),
                forall|k: int|
                    0 <= k < target@.len() ==> #[trigger] target@[k] == if k < p * 4 + i {
                        strip_channel(
                            old(target)@[k] as int,
                            color_iter.color(k / 4)[k % 4] as int,
                            color_iter.color(k / 4)[3] as int,
                            alphas@[k / 4] as int,
                        )
                    } else {
                        old(target)@[k] as int
                    },
            decreases 4 - i,
        {
            let k = p * 4 + i;
            assert((k as int) / 4 == p && (k as int) % 4 == i);
            assert(target@[k as int] == old(target)@[k as int]);
            let bg: u16 = target[k] as u16;
            let s: u16 = src_c[i] as u16;
            proof {
                lemma_channel_product_bound(bg, inv_src_a_mask_a);
                lemma_channel_product_bound(s, mask_a);
                assert(strip_channel_sum(
                    old(target)@[k as int] as int,
                    color_iter.color(k as int / 4)[k as int % 4] as int,
                    color_iter.color(k as int / 4)[3] as int,
                    alphas@[k as int / 4] as int,
                ) < 65280);
            }
            let im1: u16 = bg * inv_src_a_mask_a;
            let im2: u16 = s * mask_a;
            let im3: u16 = div_255(im1 + im2);
            target[k] = im3 as u8;
            i = i + 1;
        }
        p = p + 1;
    }
}

/// A pixel with zero coverage is left unchanged.
pub proof fn lemma_strip_uncovered_keeps(bg: u8, src: u8, src_alpha: u8)
    ensures
        strip_channel(bg as int, src as int, src_alpha as int, 0) == bg,
{
    assert((bg * 255 + 255) / 256 == bg) by (bit_vector);
}

/// An opaque source at full coverage replaces the background.
pub proof fn lemma_strip_opaque_full_coverage_replaces(bg: u8, src: u8)
    ensures
        strip_channel(bg as int, src as int, 255, 255) == src,
{
    assert(div_255_spec(255int * 255) == 255);
    lemma_div_255_exact_on_multiples(src);
}

/// For premultiplied sources the sum stays within the range of `div_255`.
pub proof fn lemma_strip_channel_fits(bg: u8, src: u8, src_alpha: u8, mask: u8)
    requires
        src <= src_alpha,
    ensures
        strip_channel_sum(bg as int, src as int, src_alpha as int, mask as int) < 65280,
{
    let d = div_255_spec(mask * src_alpha);
    assert(mask * src_alpha <= 255 * ((mask * src_alpha + 255) / 256) + 254) by (bit_vector);
    lemma_channel_product_bound(mask as u16, src_alpha as u16);
    lemma_div_255_bound((mask * src_alpha) as u16);
    lemma_mul_inequality(bg as int, 255, 255 - d);
    lemma_mul_inequality(src as int, src_alpha as int, mask as int);
}

/// A premultiplied color source can be composited over any target through any
/// masks without overflow.
pub proof fn lemma_strip_fits_premultiplied<C: ColorSource>(target: Seq<u8>, src: C, alphas: Seq<u8>)
    requires
        premultiplied_source(src, strip_pixels(target.len() as int, alphas.len() as int)),
        forall|p: int|
            0 <= p < strip_pixels(target.len() as int, alphas.len() as int) ==> #[trigger] src.color(
                p,
            ).len() == 4,
    ensures
        strip_fits(target, src, alphas),
{
    assert forall|k: int|
        0 <= k < strip_pixels(target.len() as int, alphas.len() as int) * 4 implies #[trigger] strip_channel_sum(
        target[k] as int,
        src.color(k / 4)[k % 4] as int,
        src.color(k / 4)[3] as int,
        alphas[k / 4] as int,
    ) < 65280 by {
        let p = k / 4;
        assert(src.color(p).len() == 4);
        assert(src.color(p)[k % 4] <= src.color(p)[3]);
        assert(p < alphas.len());
        lemma_strip_channel_fits(target[k], src.color(p)[k % 4], src.color(p)[3], alphas[p]);
    }
}

/// Coverage keeps premultiplication: if the source and the background are
/// premultiplied, no component of the result exceeds its alpha.
pub proof fn lemma_strip_keeps_premultiplied(bg: u8, bg_alpha: u8, src: u8, src_alpha: u8, mask: u8)
    requires
        src <= src_alpha,
        bg <= bg_alpha,
    ensures
        strip_channel(bg as int, src as int, src_alpha as int, mask as int) <= strip_channel(
            bg_alpha as int,
            src_alpha as int,
            src_alpha as int,
            mask as int,
        ),
{
    let d = div_255_spec(mask * src_alpha);
    lemma_channel_product_bound(mask as u16, src_alpha as u16);
    lemma_div_255_bound((mask * src_alpha) as u16);
    lemma_mul_inequality(bg as int, bg_alpha as int, 255 - d);
    lemma_mul_inequality(src as int, src_alpha as int, mask as int);
    lemma_strip_channel_fits(bg_alpha, src_alpha, src_alpha, mask);
    let lo = strip_channel_sum(bg as int, src as int, src_alpha as int, mask as int);
    let hi = strip_channel_sum(bg_alpha as int, src_alpha as int, src_alpha as int, mask as int);
    assert(0 <= lo <= hi < 65280) by {
        lemma_mul_inequality(0, bg as int, 255 - d);
        lemma_mul_inequality(0, src as int, mask as int);
    }
    lemma_div_255_monotonic(lo as u16, hi as u16);
}

/// A strip covers the largest number of pixels, in whole columns of four,
/// for which both the target (sixteen components a column) and the coverage
/// values (one per pixel) suffice.
pub proof fn lemma_strip_pixels_is_largest_fit(target_len: int, alphas_len: int)
    requires
        0 <= target_len,
        0 <= alphas_len,
    ensures
        strip_pixels(target_len, alphas_len) % 4 == 0,
        0 <= strip_pixels(target_len, alphas_len) * 4 <= target_len,
        strip_pixels(target_len, alphas_len) <= alphas_len,
        (strip_pixels(target_len, alphas_len) + 4) * 4 > target_len || strip_pixels(
            target_len,
            alphas_len,
        ) + 4 > alphas_len,
{
}

} // verus!
