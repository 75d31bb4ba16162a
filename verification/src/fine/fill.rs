//! Compositing a color source over whole columns of a wide tile.

use vstd::prelude::*;
use crate::div255::{div_255, div_255_spec, lemma_channel_product_bound, lemma_div_255_monotonic};
use vstd::arithmetic::mul::lemma_mul_inequality;
use crate::fine::{premultiplied_source, ColorSource, TILE_HEIGHT_COMPONENTS};

verus! {

/// Source-over of one component: `src + div_255(bg * (255 - src_alpha))`.
pub open spec fn src_over_channel(bg: int, src: int, src_alpha: int) -> int {
    src + div_255_spec(bg * (255 - src_alpha))
}

/// The number of pixels of `len` components that full columns cover.
pub open spec fn full_column_pixels(len: int) -> int {
    (len / TILE_HEIGHT_COMPONENTS as int) * 4
}

/// Whether source-over of `src` onto `target` keeps every component within 8 bits.
pub open spec fn src_over_fits<C: ColorSource>(target: Seq<u8>, src: C) -> bool {
    forall|k: int|
        0 <= k < full_column_pixels(target.len() as int) * 4 ==> #[trigger] src_over_channel(
            target[k] as int,
            src.color(k / 4)[k % 4] as int,
            src.color(k / 4)[3] as int,
        ) <= 255
}

/// Composite the colors of `color_iter` over each full column of `target`
/// (source-over on premultiplied RGBA8). Components after the last full column
/// are left unchanged.
#[verifier::rlimit(40)]
pub fn src_over<C: ColorSource>(target: &mut [u8], color_iter: &C)
    requires
        color_iter.has_colors(full_column_pixels(old(target)@.len() as int)),
        src_over_fits(old(target)@, *color_iter),
    ensures
        final(target)@.len() == old(target)@.len(),
        forall|k: int|
            0 <= k < final(target)@.len() ==> #[trigger] final(target)@[k] == if k
                < full_column_pixels(old(target)@.len() as int) * 4 {
                src_over_channel(
                    old(target)@[k] as int,
                    color_iter.color(k / 4)[k % 4] as int,
                    color_iter.color(k / 4)[3] as int,
                )
            } else {
                old(target)@[k] as int
            },
{
    let n = (target.len() / TILE_HEIGHT_COMPONENTS) * 4;
    let mut p: usize = 0;
    while p < n
        invariant
            n == full_column_pixels(old(target)@.len() as int),
            p <= n,
            target@.len() == old(target)@.len(),
            color_iter.has_colors(n as int),
            src_over_fits(old(target)@, *color_iter),
            forall|k: int|
                0 <= k < target@.len() ==> #[trigger] target@[k] == if k < p * 4 {
                    src_over_channel(
                        old(target)@[k] as int,
                        color_iter.color(k / 4)[k % 4] as int,
                        color_iter.color(k / 4)[3] as int,
                    )
                } else {
                    old(target)@[k] as int
                },
        decreases n - p,
    {
        proof {
            color_iter.lemma_has_fewer_colors(p + 1, n as int);
        }
        let src_c = color_iter.color_at(p);
        let inv_a: u16 = 255 - src_c[3] as u16;
        let ghost before = target@;
        let mut i: usize = 0;
        while i < 4
            invariant
                n == full_column_pixels(old(target)@.len() as int),
                p < n,
                i <= 4,
                target@.len() == old(target)@.len(),
                src_c@ == color_iter.color(p as int),
                inv_a == 255 - src_c@[3],
                src_over_fits(old(target)@, *color_iter),
                forall|k: int|
                    0 <= k < target@.len() ==> #[trigger] target@[k] == if k < p * 4 + i {
                        src_over_channel(
                            old(target)@[k] as int,
                            color_iter.color(k / 4)[k % 4] as int,
                            color_iter.color(k / 4)[3] as int,
                        )
                    } else {
                        old(target)@[k] as int
                    },
            decreases 4 - i,
        {
            let k = p * 4 + i;
            assert((k as int) / 4 == p && (k as int) % 4 == i);
            assert(target@[k as int] == old(target)@[k as int]);
            let bg: u16 = target[k] as u16;
            proof {
                lemma_channel_product_bound(bg, inv_a);
                assert(src_over_channel(
                    old(target)@[k as int] as int,
                    color_iter.color(k as int / 4)[k as int % 4] as int,
                    color_iter.color(k as int / 4)[3] as int,
                ) <= 255);
            }
            let d: u16 = div_255(bg * inv_a);
            target[k] = src_c[i] + d as u8;
            i = i + 1;
        }
        p = p + 1;
    }
}

} // verus!

verus! {

/// Source-over of a premultiplied component never exceeds 8 bits.
pub proof fn lemma_src_over_channel_fits(bg: u8, src: u8, src_alpha: u8)
    requires
        src <= src_alpha,
    ensures
        src_over_channel(bg as int, src as int, src_alpha as int) <= 255,
{
    assert(src + (bg * (255 - src_alpha) + 255) / 256 <= 255) by (bit_vector)
        requires
            src <= src_alpha,
    ;
}

/// Source-over keeps premultiplication: if the source and the background are
/// premultiplied, no component of the result exceeds its alpha.
pub proof fn lemma_src_over_keeps_premultiplied(bg: u8, bg_alpha: u8, src: u8, src_alpha: u8)
    requires
        src <= src_alpha,
        bg <= bg_alpha,
    ensures
        src_over_channel(bg as int, src as int, src_alpha as int) <= src_over_channel(
            bg_alpha as int,
            src_alpha as int,
            src_alpha as int,
        ),
{
    let f = 255 - src_alpha;
    lemma_mul_inequality(bg as int, bg_alpha as int, f);
    lemma_channel_product_bound(bg_alpha as u16, f as u16);
    lemma_div_255_monotonic((bg * f) as u16, (bg_alpha * f) as u16);
}

/// An opaque source replaces the background.
pub proof fn lemma_src_over_opaque_replaces(bg: u8, src: u8)
    ensures
        src_over_channel(bg as int, src as int, 255) == src,
{
}

/// A fully transparent source leaves the background unchanged.
pub proof fn lemma_src_over_transparent_keeps(bg: u8)
    ensures
        src_over_channel(bg as int, 0, 0) == bg,
{
    assert((bg * 255 + 255) / 256 == bg) by (bit_vector);
}

/// A premultiplied color source can be composited over any target without overflow.
pub proof fn lemma_src_over_fits_premultiplied<C: ColorSource>(target: Seq<u8>, src: C)
    requires
        premultiplied_source(src, full_column_pixels(target.len() as int)),
        forall|p: int| 0 <= p < full_column_pixels(target.len() as int) ==> #[trigger] src.color(p).len() == 4,
    ensures
        src_over_fits(target, src),
{
    assert forall|k: int| 0 <= k < full_column_pixels(target.len() as int) * 4 implies #[trigger] src_over_channel(
        target[k] as int,
        src.color(k / 4)[k % 4] as int,
        src.color(k / 4)[3] as int,
    ) <= 255 by {
        let p = k / 4;
        assert(src.color(p).len() == 4);
        assert(src.color(p)[k % 4] <= src.color(p)[3]);
        lemma_src_over_channel_fits(target[k], src.color(p)[k % 4], src.color(p)[3]);
    }
}

} // verus!
