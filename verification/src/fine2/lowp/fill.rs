//! Compositing over whole columns, eight pixels at a time.

use vstd::prelude::*;
use crate::fine::fill::src_over_channel;
use crate::fine::{ColorSource, RepeatColor};
use crate::fine2::lanes::{
    add_u8x32, load_u8x32, narrow_u16x32, normalized_mul, splat_color_u8x32, splat_u8x32,
    store_u8x32_at, sub_u8x32,
};
use crate::fine2::lowp::compose::{compose, compose_channel, Compose};
use crate::fine2::lowp::{source_alpha, source_component, source_vector};
use crate::fine2::Splat4thExt;

verus! {

/// Source-over of eight pixels: `bg * one_minus_alpha / 255 + src_c`, wrapping.
fn alpha_composite_inner(bg: [u8; 32], src_c: [u8; 32], one_minus_alpha: [u8; 32]) -> (r: [u8; 32])
    ensures
        forall|i: int|
            0 <= i < 32 ==> r@[i] == (src_c@[i] + crate::div255::div_255_spec(
                bg@[i] * one_minus_alpha@[i],
            )) % 256,
{
    add_u8x32(narrow_u16x32(normalized_mul(bg, one_minus_alpha)), src_c)
}

/// Composite the colors of `src_c` over `target`, eight pixels at a time
/// (source-over, wrapping to 8 bits); components after the last full group of
/// eight pixels are left unchanged.
pub fn alpha_composite_arbitrary<C: ColorSource>(target: &mut [u8], src_c: &C)
    requires
        src_c.has_colors((old(target)@.len() as int / 32) * 8),
    ensures
        final(target)@.len() == old(target)@.len(),
        forall|k: int|
            0 <= k < old(target)@.len() ==> #[trigger] final(target)@[k] == if k < (old(
                target,
            )@.len() / 32) * 32 {
                src_over_channel(
                    old(target)@[k] as int,
                    source_component(*src_c, k),
                    source_alpha(*src_c, k),
                ) % 256
            } else {
                old(target)@[k] as int
            },
{
    let len = target.len();
    let parts = len / 32;
    let mut q: usize = 0;
    while q < parts
        invariant
            len == old(target)@.len(),
            parts == old(target)@.len() / 32,
            q <= parts,
            target@.len() == old(target)@.len(),
            src_c.has_colors(parts * 8),
            forall|k: int|
                0 <= k < old(target)@.len() ==> #[trigger] target@[k] == if k < q * 32 {
                    src_over_channel(
                        old(target)@[k] as int,
                        source_component(*src_c, k),
                        source_alpha(*src_c, k),
                    ) % 256
                } else {
                    old(target)@[k] as int
                },
        decreases parts - q,
    {
        proof {
            src_c.lemma_has_fewer_colors(8 * q + 8, parts * 8);
        }
        let src = source_vector(src_c, q);
        let one_minus_alpha = sub_u8x32(splat_u8x32(255), src.splat_4th());
        let ghost before = target@;
        let bg = load_u8x32(&target[q * 32..q * 32 + 32]);
        let res = alpha_composite_inner(bg, src, one_minus_alpha);
        store_u8x32_at(&res, target, q * 32);
        assert forall|k: int| 0 <= k < old(target)@.len() implies #[trigger] target@[k] == if k < (q
            + 1) * 32 {
            src_over_channel(
                old(target)@[k] as int,
                source_component(*src_c, k),
                source_alpha(*src_c, k),
            ) % 256
        } else {
            old(target)@[k] as int
        } by {
            if q * 32 <= k < q * 32 + 32 {
                let i = k - q * 32;
                assert(k / 4 == 8 * q + i / 4 && k % 4 == i % 4);
                assert(bg@[i] == before[k]);
                assert(src@[(i / 4) * 4 + 3] == src_c.color(8 * q + i / 4)[3]);
            }
        }
        q = q + 1;
    }
}

/// Composite the solid color `src_c` over `target`, sixty-four components at a
/// time (source-over, wrapping to 8 bits); components after the last full group
/// of sixty-four are left unchanged.
pub fn alpha_composite_solid(target: &mut [u8], src_c: [u8; 4])
    ensures
        final(target)@.len() == old(target)@.len(),
        forall|k: int|
            0 <= k < old(target)@.len() ==> #[trigger] final(target)@[k] == if k < (old(
                target,
            )@.len() / 64) * 64 {
                src_over_channel(old(target)@[k] as int, src_c@[k % 4] as int, src_c@[3] as int)
                    % 256
            } else {
                old(target)@[k] as int
            },
{
    let one_minus_alpha = sub_u8x32(splat_u8x32(255), splat_u8x32(src_c[3]));
    let src = splat_color_u8x32(src_c);
    let len = target.len();
    let parts = len / 64;
    let mut q: usize = 0;
    while q < parts
        invariant
            len == old(target)@.len(),
            parts == old(target)@.len() / 64,
            q <= parts,
            target@.len() == old(target)@.len(),
            forall|i: int| 0 <= i < 32 ==> one_minus_alpha@[i] == 255 - src_c@[3],
            forall|i: int| 0 <= i < 32 ==> src@[i] == src_c@[i % 4],
            forall|k: int|
                0 <= k < old(target)@.len() ==> #[trigger] target@[k] == if k < q * 64 {
                    src_over_channel(
                        old(target)@[k] as int,
                        src_c@[k % 4] as int,
                        src_c@[3] as int,
                    ) % 256
                } else {
                    old(target)@[k] as int
                },
        decreases parts - q,
    {
        let ghost before = target@;
        let bg_1 = load_u8x32(&target[q * 64..q * 64 + 32]);
        let bg_2 = load_u8x32(&target[q * 64 + 32..q * 64 + 64]);
        let res_1 = alpha_composite_inner(bg_1, src, one_minus_alpha);
        let res_2 = alpha_composite_inner(bg_2, src, one_minus_alpha);
        store_u8x32_at(&res_1, target, q * 64);
        let ghost mid = target@;
        store_u8x32_at(&res_2, target, q * 64 + 32);
        assert forall|k: int| 0 <= k < old(target)@.len() implies #[trigger] target@[k] == if k < (q
            + 1) * 64 {
            src_over_channel(old(target)@[k] as int, src_c@[k % 4] as int, src_c@[3] as int)
                % 256
        } else {
            old(target)@[k] as int
        } by {
            if q * 64 <= k < q * 64 + 32 {
                let i = k - q * 64;
                assert(k % 4 == i % 4);
                assert(bg_1@[i] == before[k]);
                assert(target@[k] == mid[k]);
            } else if q * 64 + 32 <= k < q * 64 + 64 {
                let i = k - q * 64 - 32;
                assert(k % 4 == i % 4);
                assert(bg_2@[i] == before[k]);
            } else {
                assert(target@[k] == mid[k]);
            }
        }
        q = q + 1;
    }
}

/// Compose the colors of `src_c` with `target` by `mode`, eight pixels at a
/// time, at full coverage; components after the last full group of eight pixels
/// are left unchanged.
pub fn blend<C: ColorSource>(target: &mut [u8], src_c: &C, mode: Compose)
    requires
        src_c.has_colors((old(target)@.len() as int / 32) * 8),
    ensures
        final(target)@.len() == old(target)@.len(),
        forall|k: int|
            0 <= k < old(target)@.len() ==> #[trigger] final(target)@[k] == if k < (old(
                target,
            )@.len() / 32) * 32 {
                compose_channel(
                    mode,
                    source_component(*src_c, k),
                    source_alpha(*src_c, k),
                    old(target)@[k] as int,
                    old(target)@[(k / 4) * 4 + 3] as int,
                    255,
                )
            } else {
                old(target)@[k] as int
            },
{
    let mask = splat_u8x32(255);
    let len = target.len();
    let parts = len / 32;
    let mut q: usize = 0;
    while q < parts
        invariant
            len == old(target)@.len(),
            parts == old(target)@.len() / 32,
            q <= parts,
            target@.len() == old(target)@.len(),
            src_c.has_colors(parts * 8),
            forall|i: int| 0 <= i < 32 ==> mask@[i] == 255,
            forall|k: int|
                0 <= k < old(target)@.len() ==> #[trigger] target@[k] == if k < q * 32 {
                    compose_channel(
                        mode,
                        source_component(*src_c, k),
                        source_alpha(*src_c, k),
                        old(target)@[k] as int,
                        old(target)@[(k / 4) * 4 + 3] as int,
                        255,
                    )
                } else {
                    old(target)@[k] as int
                },
        decreases parts - q,
    {
        proof {
            src_c.lemma_has_fewer_colors(8 * q + 8, parts * 8);
        }
        let src = source_vector(src_c, q);
        let ghost before = target@;
        let bg = load_u8x32(&target[q * 32..q * 32 + 32]);
        let res = compose(mode, src, bg, mask);
        store_u8x32_at(&res, target, q * 32);
        assert forall|k: int| 0 <= k < old(target)@.len() implies #[trigger] target@[k] == if k < (q
            + 1) * 32 {
            compose_channel(
                mode,
                source_component(*src_c, k),
                source_alpha(*src_c, k),
                old(target)@[k] as int,
                old(target)@[(k / 4) * 4 + 3] as int,
                255,
            )
        } else {
            old(target)@[k] as int
        } by {
            if q * 32 <= k < q * 32 + 32 {
                let i = k - q * 32;
                assert(k / 4 == 8 * q + i / 4 && k % 4 == i % 4);
                assert((k / 4) * 4 + 3 == q * 32 + (i / 4) * 4 + 3);
                assert(bg@[i] == before[k]);
                assert(bg@[(i / 4) * 4 + 3] == before[(k / 4) * 4 + 3]);
                assert(before[(k / 4) * 4 + 3] == old(target)@[(k / 4) * 4 + 3]);
                assert(src@[(i / 4) * 4 + 3] == src_c.color(8 * q + i / 4)[3]);
            }
        }
        q = q + 1;
    }
}

} // verus!
