//! The kernel that composites 8-bit premultiplied components.

use vstd::prelude::*;
use crate::fine::fill::src_over_channel;
use crate::fine::strip::{strip_channel, strip_channel_sum};
use crate::fine::{ColorChunks, ColorSource};
use crate::fine2::lanes::{splat_color_u8x32, store_u8x32_at};
use crate::fine2::lowp::compose::{compose_channel, Compose};
use crate::fine2::lowp::strip::strip_components;
use crate::pack::{pack_args_ok, pack_cols, pack_covers, pack_rows, pixmap_index, tile_index};

pub mod compose;
pub mod fill;
pub mod strip;

verus! {

/// Component `k % 4` of the color that `src` gives pixel `k / 4`.
pub open spec fn source_component<C: ColorSource>(src: C, k: int) -> int {
    src.color(k / 4)[k % 4] as int
}

/// The alpha of the color that `src` gives pixel `k / 4`.
pub open spec fn source_alpha<C: ColorSource>(src: C, k: int) -> int {
    src.color(k / 4)[3] as int
}

/// The eight colors that `src` gives pixels `8 * q .. 8 * q + 8`, as one vector.
pub fn source_vector<C: ColorSource>(src: &C, q: usize) -> (r: [u8; 32])
    requires
        src.has_colors(8 * q + 8),
        8 * q + 8 <= usize::MAX,
    ensures
        forall|i: int| 0 <= i < 32 ==> r@[i] == src.color(8 * q + i / 4)[i % 4],
{
    let mut r = [0u8; 32];
    let mut p: usize = 0;
    while p < 8
        invariant
            src.has_colors(8 * q + 8),
            8 * q + 8 <= usize::MAX,
            p <= 8,
            forall|i: int| 0 <= i < 4 * p ==> r@[i] == src.color(8 * q + i / 4)[i % 4],
        decreases 8 - p,
    {
        proof {
            src.lemma_has_fewer_colors(8 * q + p + 1, 8 * q + 8);
        }
        let c = src.color_at(8 * q + p);
        r[4 * p] = c[0];
        r[4 * p + 1] = c[1];
        r[4 * p + 2] = c[2];
        r[4 * p + 3] = c[3];
        p = p + 1;
    }
    r
}

} // verus!

verus! {

/// The kernel that composites 8-bit premultiplied components.
#[derive(Clone, Copy, Debug)]
pub struct U8Kernel;

/// The number of components of `target` that can be paired with a full group
/// of eight pixels from `src_len` components.
pub open spec fn paired_components(target_len: int, src_len: int) -> int {
    let parts = target_len / 32;
    let src_parts = src_len / 32;
    (if parts < src_parts {
        parts
    } else {
        src_parts
    }) * 32
}

impl U8Kernel {
    /// Copy the wide tile `blend_buf`, stored column by column, into the rows of
    /// the pixmap `out` of `width * height` pixels at wide-tile column `x` and
    /// tile row `y`; only the part of the tile inside the pixmap is written.
    pub fn pack(out: &mut [u8], blend_buf: &[u8], x: usize, y: usize, width: usize, height: usize)
        requires
            pack_args_ok(
                old(out)@.len() as int,
                blend_buf@.len() as int,
                x as int,
                y as int,
                width as int,
                height as int,
            ),
        ensures
            final(out)@.len() == old(out)@.len(),
            forall|i: int, j: int, c: int|
                0 <= i < pack_cols(x as int, width as int) && 0 <= j < pack_rows(
                    y as int,
                    height as int,
                ) && 0 <= c < 4 ==> #[trigger] final(out)@[pixmap_index(
                    x as int,
                    y as int,
                    width as int,
                    i,
                    j,
                    c,
                )] == blend_buf@[tile_index(i, j, c)],
            forall|k: int|
                0 <= k < old(out)@.len() && !pack_covers(
                    k,
                    x as int,
                    y as int,
                    width as int,
                    height as int,
                ) ==> final(out)@[k] == old(out)@[k],
    {
        crate::pack::pack::<u8>(out, blend_buf, x, y, width, height);
        assert forall|i: int, j: int, c: int|
            0 <= i < pack_cols(x as int, width as int) && 0 <= j < pack_rows(
                y as int,
                height as int,
            ) && 0 <= c < 4 implies #[trigger] out@[pixmap_index(
                x as int,
                y as int,
                width as int,
                i,
                j,
                c,
            )] == blend_buf@[tile_index(i, j, c)] by {
            let sub = blend_buf@.subrange(tile_index(i, j, 0), tile_index(i, j, 4));
            assert(sub[c] == blend_buf@[tile_index(i, j, c)]);
        }
    }

    /// Write `color` to every pixel of `target`, sixty-four components at a time;
    /// components after the last full group of sixty-four are left unchanged.
    pub fn copy_solid(target: &mut [u8], color: [u8; 4])
        ensures
            final(target)@.len() == old(target)@.len(),
            forall|k: int|
                0 <= k < old(target)@.len() ==> #[trigger] final(target)@[k] == if k < (old(
                    target,
                )@.len() / 64) * 64 {
                    color@[k % 4]
                } else {
                    old(target)@[k]
                },
    {
        let c = splat_color_u8x32(color);
        let len = target.len();
        let parts = len / 64;
        let mut q: usize = 0;
        while q < parts
            invariant
                len == old(target)@.len(),
                parts == old(target)@.len() / 64,
                q <= parts,
                target@.len() == old(target)@.len(),
                forall|i: int| 0 <= i < 32 ==> c@[i] == color@[i % 4],
                forall|k: int|
                    0 <= k < old(target)@.len() ==> #[trigger] target@[k] == if k < q * 64 {
                        color@[k % 4]
                    } else {
                        old(target)@[k]
                    },
            decreases parts - q,
        {
            let ghost before = target@;
            store_u8x32_at(&c, target, q * 64);
            let ghost mid = target@;
            store_u8x32_at(&c, target, q * 64 + 32);
            assert forall|k: int| 0 <= k < old(target)@.len() implies #[trigger] target@[k] == if k < (
            q + 1) * 64 {
                color@[k % 4]
            } else {
                old(target)@[k]
            } by {
                if q * 64 <= k < q * 64 + 32 {
                    assert(target@[k] == mid[k]);
                    assert(k % 4 == (k - q * 64) % 4);
                } else if q * 64 + 32 <= k < q * 64 + 64 {
                    assert(k % 4 == (k - q * 64 - 32) % 4);
                } else {
                    assert(target@[k] == mid[k]);
                }
            }
            q = q + 1;
        }
    }

    /// Composite the solid color `color` over `target` (see
    /// `fill::alpha_composite_solid`).
    pub fn alpha_composite_solid(target: &mut [u8], color: [u8; 4])
        ensures
            final(target)@.len() == old(target)@.len(),
            forall|k: int|
                0 <= k < old(target)@.len() ==> #[trigger] final(target)@[k] == if k < (old(
                    target,
                )@.len() / 64) * 64 {
                    src_over_channel(old(target)@[k] as int, color@[k % 4] as int, color@[3] as int)
                        % 256
                } else {
                    old(target)@[k] as int
                },
    {
        crate::fine2::lowp::fill::alpha_composite_solid(target, color);
    }

    /// Composite the shaded colors `shader_src` over `target`, pairing the groups
    /// of eight pixels of both as long as both have them.
    pub fn alpha_composite_shader(target: &mut [u8], shader_src: &[u8])
        ensures
            final(target)@.len() == old(target)@.len(),
            forall|k: int|
                0 <= k < old(target)@.len() ==> #[trigger] final(target)@[k] == if k
                    < paired_components(old(target)@.len() as int, shader_src@.len() as int) {
                    src_over_channel(
                        old(target)@[k] as int,
                        shader_src@[k] as int,
                        shader_src@[(k / 4) * 4 + 3] as int,
                    ) % 256
                } else {
                    old(target)@[k] as int
                },
    {
        let ghost old_target = target@;
        let len = target.len();
        let n = if len / 32 < shader_src.len() / 32 {
            len / 32
        } else {
            shader_src.len() / 32
        } * 32;
        let (head, rest) = target.split_at_mut(n);
        let src = ColorChunks(shader_src);
        assert((head@.len() as int / 32) * 8 * 4 <= shader_src@.len());
        crate::fine2::lowp::fill::alpha_composite_arbitrary(head, &src);
        assert forall|k: int| 0 <= k < old_target.len() implies #[trigger] target@[k] == if k < n {
            src_over_channel(
                old_target[k] as int,
                shader_src@[k] as int,
                shader_src@[(k / 4) * 4 + 3] as int,
            ) % 256
        } else {
            old_target[k] as int
        } by {
            if k < n {
                assert(target@[k] == head@[k]);
                assert(src.color(k / 4)[k % 4] == shader_src@[k]);
                assert(src.color(k / 4)[3] == shader_src@[(k / 4) * 4 + 3]);
            } else {
                assert(target@[k] == rest@[k - n]);
            }
        }
    }

    /// Compose the colors of `src` with `target` by `mode` at full coverage (see
    /// `fill::blend`).
    pub fn blend<C: ColorSource>(target: &mut [u8], src: &C, mode: Compose)
        requires
            src.has_colors((old(target)@.len() as int / 32) * 8),
        ensures
            final(target)@.len() == old(target)@.len(),
            forall|k: int|
                0 <= k < old(target)@.len() ==> #[trigger] final(target)@[k] == if k < (old(
                    target,
                )@.len() / 32) * 32 {
                    compose_channel(
                        mode,
                        source_component(*src, k),
                        source_alpha(*src, k),
                        old(target)@[k] as int,
                        old(target)@[(k / 4) * 4 + 3] as int,
                        255,
                    )
                } else {
                    old(target)@[k] as int
                },
    {
        crate::fine2::lowp::fill::blend(target, src, mode);
    }

    /// Composite the solid color `color` over `target` through the masks `alphas`
    /// (see `strip::alpha_composite_solid`).
    pub fn alpha_composite_solid_with_alphas(target: &mut [u8], color: [u8; 4], alphas: &[u8])
        requires
            forall|k: int|
                0 <= k < strip_components(old(target)@.len() as int, alphas@.len() as int)
                    ==> #[trigger] strip_channel_sum(
                    old(target)@[k] as int,
                    color@[k % 4] as int,
                    color@[3] as int,
                    alphas@[k / 4] as int,
                ) < 65280,
        ensures
            final(target)@.len() == old(target)@.len(),
            forall|k: int|
                0 <= k < old(target)@.len() ==> #[trigger] final(target)@[k] == if k
                    < strip_components(old(target)@.len() as int, alphas@.len() as int) {
                    strip_channel(
                        old(target)@[k] as int,
                        color@[k % 4] as int,
                        color@[3] as int,
                        alphas@[k / 4] as int,
                    )
                } else {
                    old(target)@[k] as int
                },
    {
        crate::fine2::lowp::strip::alpha_composite_solid(target, color, alphas);
    }

    /// Compose the colors of `src` with `target` by `mode` through the masks
    /// `alphas` (see `strip::blend`).
    pub fn blend_with_alphas<C: ColorSource>(
        target: &mut [u8],
        src: &C,
        mode: Compose,
        alphas: &[u8],
    )
        requires
            src.has_colors(strip_components(old(target)@.len() as int, alphas@.len() as int) / 4),
        ensures
            final(target)@.len() == old(target)@.len(),
            forall|k: int|
                0 <= k < old(target)@.len() ==> #[trigger] final(target)@[k] == if k
                    < strip_components(old(target)@.len() as int, alphas@.len() as int) {
                    compose_channel(
                        mode,
                        source_component(*src, k),
                        source_alpha(*src, k),
                        old(target)@[k] as int,
                        old(target)@[(k / 4) * 4 + 3] as int,
                        alphas@[k / 4] as int,
                    )
                } else {
                    old(target)@[k] as int
                },
    {
        crate::fine2::lowp::strip::blend(target, src, mode, alphas);
    }
}

} // verus!

verus! {

impl U8Kernel {
    /// Composite the shaded colors `shader_src` over `target` through the masks
    /// `alphas`, pairing the groups of eight pixels of all three as long as all
    /// have them.
    #[verifier::spinoff_prover]
    #[verifier::rlimit(80)]
    pub fn alpha_composite_shader_with_alphas(target: &mut [u8], shader_src: &[u8], alphas: &[u8])
        requires
            forall|k: int|
                0 <= k < strip_components(
                    paired_components(old(target)@.len() as int, shader_src@.len() as int),
                    alphas@.len() as int,
                ) ==> #[trigger] strip_channel_sum(
                    old(target)@[k] as int,
                    shader_src@[k] as int,
                    shader_src@[(k / 4) * 4 + 3] as int,
                    alphas@[k / 4] as int,
                ) < 65280,
        ensures
            final(target)@.len() == old(target)@.len(),
            forall|k: int|
                0 <= k < old(target)@.len() ==> #[trigger] final(target)@[k] == if k
                    < strip_components(
                    paired_components(old(target)@.len() as int, shader_src@.len() as int),
                    alphas@.len() as int,
                ) {
                    strip_channel(
                        old(target)@[k] as int,
                        shader_src@[k] as int,
                        shader_src@[(k / 4) * 4 + 3] as int,
                        alphas@[k / 4] as int,
                    )
                } else {
                    old(target)@[k] as int
                },
    {
        let ghost old_target = target@;
        let len = target.len();
        let n = if len / 32 < shader_src.len() / 32 {
            len / 32
        } else {
            shader_src.len() / 32
        } * 32;
        assert(n == paired_components(old_target.len() as int, shader_src@.len() as int));
        let (head, rest) = target.split_at_mut(n);
        let src = ColorChunks(shader_src);
        let ghost m = strip_components(n as int, alphas@.len() as int);
        assert(m <= n && n <= shader_src@.len()) by {
            assert(n % 32 == 0);
        }
        assert(src.has_colors(m / 4));
        assert forall|k: int| 0 <= k < m implies #[trigger] strip_channel_sum(
            head@[k] as int,
            source_component(src, k),
            source_alpha(src, k),
            alphas@[k / 4] as int,
        ) < 65280 by {
            assert(head@[k] == old_target[k]);
            assert(src.color(k / 4)[k % 4] == shader_src@[k]);
            assert(src.color(k / 4)[3] == shader_src@[(k / 4) * 4 + 3]);
            assert(strip_channel_sum(
                old_target[k] as int,
                shader_src@[k] as int,
                shader_src@[(k / 4) * 4 + 3] as int,
                alphas@[k / 4] as int,
            ) < 65280);
        }
        crate::fine2::lowp::strip::alpha_composite_arbitrary(head, &src, alphas);
        assert forall|k: int| 0 <= k < old_target.len() implies #[trigger] target@[k] == if k < m {
            strip_channel(
                old_target[k] as int,
                shader_src@[k] as int,
                shader_src@[(k / 4) * 4 + 3] as int,
                alphas@[k / 4] as int,
            )
        } else {
            old_target[k] as int
        } by {
            if k < n {
                assert(target@[k] == head@[k]);
                assert(src.color(k / 4)[k % 4] == shader_src@[k]);
                assert(src.color(k / 4)[3] == shader_src@[(k / 4) * 4 + 3]);
            } else {
                assert(target@[k] == rest@[k - n]);
            }
        }
    }
}

} // verus!
