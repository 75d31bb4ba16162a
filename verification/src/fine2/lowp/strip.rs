//! Compositing through coverage masks, eight pixels at a time.

use vstd::prelude::*;
use crate::div255::div_255_spec;
use crate::fine::strip::{strip_channel, strip_channel_sum};
use crate::fine::ColorSource;
use crate::fine2::lanes::{
    add_u16x32, div_255_u16x32, extract_masks, load_u8x32, mul_u16x32, narrow_u16x32,
    normalized_mul, splat_color_u8x32, splat_u8x32, store_u8x32_at, sub_u8x32, widen_u8x32,
};
use crate::fine2::lowp::compose::{compose, compose_channel, Compose};
use crate::fine2::lowp::{source_alpha, source_component, source_vector};
use crate::fine2::Splat4thExt;

verus! {

/// The number of components processed: those of the groups of eight pixels
/// for which both the components of `target` and eight masks are present.
pub open spec fn strip_components(target_len: int, alphas_len: int) -> int {
    let parts = target_len / 32;
    let mask_parts = alphas_len / 8;
    (if parts < mask_parts {
        parts
    } else {
        mask_parts
    }) * 32
}

/// Composite eight pixels of `target[offset..offset + 32]` with masks
/// `masks[0..8]`.
fn alpha_composite_inner(
    target: &mut [u8],
    offset: usize,
    masks: &[u8],
    src_c: [u8; 32],
    src_a: [u8; 32],
    one: [u8; 32],
)
    requires
        offset + 32 <= old(target)@.len(),
        masks@.len() >= 8,
        forall|i: int| 0 <= i < 32 ==> one@[i] == 255,
        forall|i: int|
            0 <= i < 32 ==> #[trigger] strip_channel_sum(
                old(target)@[offset + i] as int,
                src_c@[i] as int,
                src_a@[i] as int,
                masks@[i / 4] as int,
            ) < 65280,
    ensures
        final(target)@.len() == old(target)@.len(),
        forall|k: int|
            0 <= k < old(target)@.len() ==> #[trigger] final(target)@[k] == if offset <= k < offset
                + 32 {
                strip_channel(
                    old(target)@[k] as int,
                    src_c@[k - offset] as int,
                    src_a@[k - offset] as int,
                    masks@[(k - offset) / 4] as int,
                )
            } else {
                old(target)@[k] as int
            },
{
    let _len = target.len();
    let bg_c = load_u8x32(&target[offset..offset + 32]);
    let mask_a = extract_masks(masks);
    let inv_src_a_mask_a = sub_u8x32(one, narrow_u16x32(normalized_mul(src_a, mask_a)));
    let p1 = mul_u16x32(widen_u8x32(bg_c), widen_u8x32(inv_src_a_mask_a));
    let p2 = mul_u16x32(widen_u8x32(src_c), widen_u8x32(mask_a));
    assert forall|i: int| 0 <= i < 32 implies p1@[i] == bg_c@[i] * (255 - div_255_spec(
        src_a@[i] * mask_a@[i],
    )) && p2@[i] == src_c@[i] * mask_a@[i] by {
        crate::div255::lemma_channel_product_bound(bg_c@[i] as u16, inv_src_a_mask_a@[i] as u16);
        crate::div255::lemma_channel_product_bound(src_c@[i] as u16, mask_a@[i] as u16);
    }
    let sum = add_u16x32(p1, p2);
    assert forall|i: int| 0 <= i < 32 implies sum@[i] < 65280 && sum@[i] == strip_channel_sum(
        old(target)@[offset + i] as int,
        src_c@[i] as int,
        src_a@[i] as int,
        masks@[i / 4] as int,
    ) by {
        assert(bg_c@[i] == old(target)@[offset + i]);
        assert(mask_a@[i] == masks@[i / 4]);
        assert(p1@[i] + p2@[i] == strip_channel_sum(
            old(target)@[offset + i] as int,
            src_c@[i] as int,
            src_a@[i] as int,
            masks@[i / 4] as int,
        ));
        assert(strip_channel_sum(
            old(target)@[offset + i] as int,
            src_c@[i] as int,
            src_a@[i] as int,
            masks@[i / 4] as int,
        ) < 65280);
    }
    let d = div_255_u16x32(sum);
    let res = narrow_u16x32(d);
    store_u8x32_at(&res, target, offset);
    assert forall|k: int| 0 <= k < old(target)@.len() implies #[trigger] target@[k] == if offset <= k
        < offset + 32 {
        strip_channel(
            old(target)@[k] as int,
            src_c@[k - offset] as int,
            src_a@[k - offset] as int,
            masks@[(k - offset) / 4] as int,
        )
    } else {
        old(target)@[k] as int
    } by {
        if offset <= k < offset + 32 {
            let i = k - offset;
            assert(sum@[i] == strip_channel_sum(
                old(target)@[offset + i] as int,
                src_c@[i] as int,
                src_a@[i] as int,
                masks@[i / 4] as int,
            ));
            assert(d@[i] <= 255);
        }
    }
}

/// Composite the solid color `src_c` over `target`, each pixel weighted by its
/// coverage in `alphas`, eight pixels at a time.
pub fn alpha_composite_solid(target: &mut [u8], src_c: [u8; 4], alphas: &[u8])
    requires
        forall|k: int|
            0 <= k < strip_components(old(target)@.len() as int, alphas@.len() as int)
                ==> #[trigger] strip_channel_sum(
                old(target)@[k] as int,
                src_c@[k % 4] as int,
                src_c@[3] as int,
                alphas@[k / 4] as int,
            ) < 65280,
    ensures
        final(target)@.len() == old(target)@.len(),
        forall|k: int|
            0 <= k < old(target)@.len() ==> #[trigger] final(target)@[k] == if k < strip_components(
                old(target)@.len() as int,
                alphas@.len() as int,
            ) {
                strip_channel(
                    old(target)@[k] as int,
                    src_c@[k % 4] as int,
                    src_c@[3] as int,
                    alphas@[k / 4] as int,
                )
            } else {
                old(target)@[k] as int
            },
{
    let src_a = splat_u8x32(src_c[3]);
    let src = splat_color_u8x32(src_c);
    let one = splat_u8x32(255);
    let len = target.len();
    let parts = if len / 32 < alphas.len() / 8 {
        len / 32
    } else {
        alphas.len() / 8
    };
    let mut q: usize = 0;
    while q < parts
        invariant
            len == old(target)@.len(),
            parts * 32 == strip_components(old(target)@.len() as int, alphas@.len() as int),
            parts * 8 <= alphas@.len(),
            q <= parts,
            target@.len() == old(target)@.len(),
            forall|i: int| 0 <= i < 32 ==> one@[i] == 255,
            forall|i: int| 0 <= i < 32 ==> src_a@[i] == src_c@[3],
            forall|i: int| 0 <= i < 32 ==> src@[i] == src_c@[i % 4],
            forall|k: int|
                0 <= k < parts * 32 ==> #[trigger] strip_channel_sum(
                    old(target)@[k] as int,
                    src_c@[k % 4] as int,
                    src_c@[3] as int,
                    alphas@[k / 4] as int,
                ) < 65280,
            forall|k: int|
                0 <= k < old(target)@.len() ==> #[trigger] target@[k] == if k < q * 32 {
                    strip_channel(
                        old(target)@[k] as int,
                        src_c@[k % 4] as int,
                        src_c@[3] as int,
                        alphas@[k / 4] as int,
                    )
                } else {
                    old(target)@[k] as int
                },
        decreases parts - q,
    {
        let ghost before = target@;
        let masks = &alphas[q * 8..q * 8 + 8];
        assert forall|i: int| 0 <= i < 32 implies #[trigger] strip_channel_sum(
            before[q * 32 + i] as int,
            src@[i] as int,
            src_a@[i] as int,
            masks@[i / 4] as int,
        ) < 65280 by {
            let k = q * 32 + i;
            assert(k / 4 == q * 8 + i / 4 && k % 4 == i % 4);
            assert(strip_channel_sum(
                old(target)@[k] as int,
                src_c@[k % 4] as int,
                src_c@[3] as int,
                alphas@[k / 4] as int,
            ) < 65280);
        }
        alpha_composite_inner(target, q * 32, masks, src, src_a, one);
        assert forall|k: int| 0 <= k < old(target)@.len() implies #[trigger] target@[k] == if k < (q
            + 1) * 32 {
            strip_channel(
                old(target)@[k] as int,
                src_c@[k % 4] as int,
                src_c@[3] as int,
                alphas@[k / 4] as int,
            )
        } else {
            old(target)@[k] as int
        } by {
            if q * 32 <= k < q * 32 + 32 {
                let i = k - q * 32;
                assert(k / 4 == q * 8 + i / 4 && k % 4 == i % 4);
            }
        }
        q = q + 1;
    }
}

/// Composite the colors of `src_c` over `target`, each pixel weighted by its
/// coverage in `alphas`, eight pixels at a time.
pub fn alpha_composite_arbitrary<C: ColorSource>(target: &mut [u8], src_c: &C, alphas: &[u8])
    requires
        src_c.has_colors(strip_components(old(target)@.len() as int, alphas@.len() as int) / 4),
        forall|k: int|
            0 <= k < strip_components(old(target)@.len() as int, alphas@.len() as int)
                ==> #[trigger] strip_channel_sum(
                old(target)@[k] as int,
                source_component(*src_c, k),
                source_alpha(*src_c, k),
                alphas@[k / 4] as int,
            ) < 65280,
    ensures
        final(target)@.len() == old(target)@.len(),
        forall|k: int|
            0 <= k < old(target)@.len() ==> #[trigger] final(target)@[k] == if k < strip_components(
                old(target)@.len() as int,
                alphas@.len() as int,
            ) {
                strip_channel(
                    old(target)@[k] as int,
                    source_component(*src_c, k),
                    source_alpha(*src_c, k),
                    alphas@[k / 4] as int,
                )
            } else {
                old(target)@[k] as int
            },
{
    let one = splat_u8x32(255);
    let len = target.len();
    let parts = if len / 32 < alphas.len() / 8 {
        len / 32
    } else {
        alphas.len() / 8
    };
    let mut q: usize = 0;
    while q < parts
        invariant
            len == old(target)@.len(),
            parts * 32 == strip_components(old(target)@.len() as int, alphas@.len() as int),
            parts * 8 <= alphas@.len(),
            q <= parts,
            target@.len() == old(target)@.len(),
            src_c.has_colors(parts * 8),
            forall|i: int| 0 <= i < 32 ==> one@[i] == 255,
            forall|k: int|
                0 <= k < parts * 32 ==> #[trigger] strip_channel_sum(
                    old(target)@[k] as int,
                    source_component(*src_c, k),
                    source_alpha(*src_c, k),
                    alphas@[k / 4] as int,
                ) < 65280,
            forall|k: int|
                0 <= k < old(target)@.len() ==> #[trigger] target@[k] == if k < q * 32 {
                    strip_channel(
                        old(target)@[k] as int,
                        source_component(*src_c, k),
                        source_alpha(*src_c, k),
                        alphas@[k / 4] as int,
                    )
                } else {
                    old(target)@[k] as int
                },
        decreases parts - q,
    {
        proof {
            src_c.lemma_has_fewer_colors(8 * q + 8, parts * 8);
        }
        let src = source_vector(src_c, q);
        let src_a = src.splat_4th();
        let ghost before = target@;
        let masks = &alphas[q * 8..q * 8 + 8];
        assert forall|i: int| 0 <= i < 32 implies #[trigger] strip_channel_sum(
            before[q * 32 + i] as int,
            src@[i] as int,
            src_a@[i] as int,
            masks@[i / 4] as int,
        ) < 65280 by {
            let k = q * 32 + i;
            assert(k / 4 == q * 8 + i / 4 && k % 4 == i % 4);
            assert(src@[(i / 4) * 4 + 3] == src_c.color(8 * q + i / 4)[3]);
            assert(strip_channel_sum(
                old(target)@[k] as int,
                source_component(*src_c, k),
                source_alpha(*src_c, k),
                alphas@[k / 4] as int,
            ) < 65280);
        }
        alpha_composite_inner(target, q * 32, masks, src, src_a, one);
        assert forall|k: int| 0 <= k < old(target)@.len() implies #[trigger] target@[k] == if k < (q
            + 1) * 32 {
            strip_channel(
                old(target)@[k] as int,
                source_component(*src_c, k),
                source_alpha(*src_c, k),
                alphas@[k / 4] as int,
            )
        } else {
            old(target)@[k] as int
        } by {
            if q * 32 <= k < q * 32 + 32 {
                let i = k - q * 32;
                assert(k / 4 == q * 8 + i / 4 && k % 4 == i % 4);
                assert(src@[(i / 4) * 4 + 3] == src_c.color(8 * q + i / 4)[3]);
            }
        }
        q = q + 1;
    }
}

/// Compose the colors of `src_c` with `target` by `mode`, each pixel weighted by
/// its coverage in `alphas`, eight pixels at a time.
pub fn blend<C: ColorSource>(target: &mut [u8], src_c: &C, mode: Compose, alphas: &[u8])
    requires
        src_c.has_colors(strip_components(old(target)@.len() as int, alphas@.len() as int) / 4),
    ensures
        final(target)@.len() == old(target)@.len(),
        forall|k: int|
            0 <= k < old(target)@.len() ==> #[trigger] final(target)@[k] == if k < strip_components(
                old(target)@.len() as int,
                alphas@.len() as int,
            ) {
                compose_channel(
                    mode,
                    source_component(*src_c, k),
                    source_alpha(*src_c, k),
                    old(target)@[k] as int,
                    old(target)@[(k / 4) * 4 + 3] as int,
                    alphas@[k / 4] as int,
                )
            } else {
                old(target)@[k] as int
            },
{
    let len = target.len();
    let parts = if len / 32 < alphas.len() / 8 {
        len / 32
    } else {
        alphas.len() / 8
    };
    let mut q: usize = 0;
    while q < parts
        invariant
            len == old(target)@.len(),
            parts * 32 == strip_components(old(target)@.len() as int, alphas@.len() as int),
            parts * 8 <= alphas@.len(),
            q <= parts,
            target@.len() == old(target)@.len(),
            src_c.has_colors(parts * 8),
            forall|k: int|
                0 <= k < old(target)@.len() ==> #[trigger] target@[k] == if k < q * 32 {
                    compose_channel(
                        mode,
                        source_component(*src_c, k),
                        source_alpha(*src_c, k),
                        old(target)@[k] as int,
                        old(target)@[(k / 4) * 4 + 3] as int,
                        alphas@[k / 4] as int,
                    )
                } else {
                    old(target)@[k] as int
                },
        decreases parts - q,
    {
        proof {
            src_c.lemma_has_fewer_colors(8 * q + 8, parts * 8);
        }
        let src = source_vector(src_c, q);
        let ghost before = target@;
        let bg = load_u8x32(&target[q * 32..q * 32 + 32]);
        let masks = extract_masks(&alphas[q * 8..q * 8 + 8]);
        let res = compose(mode, src, bg, masks);
        store_u8x32_at(&res, target, q * 32);
        assert forall|k: int| 0 <= k < old(target)@.len() implies #[trigger] target@[k] == if k < (q
            + 1) * 32 {
            compose_channel(
                mode,
                source_component(*src_c, k),
                source_alpha(*src_c, k),
                old(target)@[k] as int,
                old(target)@[(k / 4) * 4 + 3] as int,
                alphas@[k / 4] as int,
            )
        } else {
            old(target)@[k] as int
        } by {
            if q * 32 <= k < q * 32 + 32 {
                let i = k - q * 32;
                assert(k / 4 == 8 * q + i / 4 && k % 4 == i % 4);
                assert((k / 4) * 4 + 3 == q * 32 + (i / 4) * 4 + 3);
                assert(bg@[i] == before[k]);
                assert(bg@[(i / 4) * 4 + 3] == before[(k / 4) * 4 + 3]);
                assert(before[(k / 4) * 4 + 3] == old(target)@[(k / 4) * 4 + 3]);
                assert(src@[(i / 4) * 4 + 3] == src_c.color(8 * q + i / 4)[3]);
                assert(masks@[i] == alphas@[q * 8 + i / 4]);
            }
        }
        q = q + 1;
    }
}

/// A strip covers the largest number of components, in whole groups of
/// thirty-two (eight pixels), for which both the target and the coverage
/// values (one per pixel) suffice.
pub proof fn lemma_strip_components_is_largest_fit(target_len: int, alphas_len: int)
    requires
        0 <= target_len,
        0 <= alphas_len,
    ensures
        strip_components(target_len, alphas_len) % 32 == 0,
        0 <= strip_components(target_len, alphas_len) <= target_len,
        strip_components(target_len, alphas_len) / 4 <= alphas_len,
        strip_components(target_len, alphas_len) + 32 > target_len || (strip_components(
            target_len,
            alphas_len,
        ) + 32) / 4 > alphas_len,
{
}

} // verus!
