//! Running the 8-bit kernel on a stretch of a buffer.

use vstd::prelude::*;
use crate::fine::fill::src_over_channel;
use crate::fine::strip::{strip_channel, strip_channel_sum};
use crate::fine::ColorSource;
use crate::fine2::lowp::compose::{compose_channel, Compose};
use crate::fine2::lowp::strip::strip_components;
use crate::fine2::lowp::{paired_components, source_alpha, source_component, U8Kernel};

verus! {

/// A buffer that is `head`, then `region`, then `rest` has `region` at `start`.
proof fn lemma_region(buf: Seq<u8>, head: Seq<u8>, region: Seq<u8>, rest: Seq<u8>, start: int)
    requires
        buf == head + region + rest,
        head.len() == start,
    ensures
        forall|k: int|
            0 <= k < buf.len() ==> #[trigger] buf[k] == if start <= k < start + region.len() {
                region[k - start]
            } else if k < start {
                head[k]
            } else {
                rest[k - start - region.len()]
            },
{
    assert forall|k: int| 0 <= k < buf.len() implies #[trigger] buf[k] == if start <= k < start
        + region.len() {
        region[k - start]
    } else if k < start {
        head[k]
    } else {
        rest[k - start - region.len()]
    } by {
        if k < start {
            assert(buf[k] == (head + region)[k]);
        } else if k < start + region.len() {
            assert(buf[k] == (head + region)[k]);
        }
    }
}

/// `U8Kernel::copy_solid` on `buf[start..start + len]`.
pub fn copy_solid_at(buf: &mut [u8], start: usize, len: usize, color: [u8; 4])
    requires
        start + len <= old(buf)@.len(),
    ensures
        final(buf)@.len() == old(buf)@.len(),
        forall|k: int|
            0 <= k < old(buf)@.len() ==> #[trigger] final(buf)@[k] == if start <= k < start + (len
                / 64) * 64 {
                color@[(k - start) % 4]
            } else {
                old(buf)@[k]
            },
{
    let ghost old_buf = buf@;
    let (head, tail) = buf.split_at_mut(start);
    let (region, rest) = tail.split_at_mut(len);
    let ghost old_region = region@;
    assert(old_region =~= old_buf.subrange(start as int, start + len));
    U8Kernel::copy_solid(region, color);
    let ghost (h, r, t) = (head@, region@, rest@);
    proof {
        assert(h =~= old_buf.subrange(0, start as int));
        assert(t =~= old_buf.subrange(start + len, old_buf.len() as int));
        assert(buf@ =~= h + r + t);
        lemma_region(buf@, h, r, t, start as int);
        assert(old_buf =~= h + old_region + t);
        lemma_region(old_buf, h, old_region, t, start as int);
    }
}

/// `U8Kernel::alpha_composite_solid` on `buf[start..start + len]`.
pub fn composite_solid_at(buf: &mut [u8], start: usize, len: usize, color: [u8; 4])
    requires
        start + len <= old(buf)@.len(),
    ensures
        final(buf)@.len() == old(buf)@.len(),
        forall|k: int|
            0 <= k < old(buf)@.len() ==> #[trigger] final(buf)@[k] == if start <= k < start + (len / 64) * 64 {
                (src_over_channel(old(buf)@[k] as int, color@[(k - start) % 4] as int, color@[3] as int) % 256) as u8
            } else {
                old(buf)@[k]
            },
{
    let ghost old_buf = buf@;
    let (head, tail) = buf.split_at_mut(start);
    let (region, rest) = tail.split_at_mut(len);
    let ghost old_region = region@;
    assert(old_region =~= old_buf.subrange(start as int, start + len));
    U8Kernel::alpha_composite_solid(region, color);
    let ghost (h, r, t) = (head@, region@, rest@);
    proof {
        assert(h =~= old_buf.subrange(0, start as int));
        assert(t =~= old_buf.subrange(start + len, old_buf.len() as int));
        assert(buf@ =~= h + r + t);
        lemma_region(buf@, h, r, t, start as int);
        assert(old_buf =~= h + old_region + t);
        lemma_region(old_buf, h, old_region, t, start as int);
        assert forall|k: int| 0 <= k < old_buf.len() implies #[trigger] buf@[k] == if start <= k < start + (len / 64) * 64 {
            (src_over_channel(old_buf[k] as int, color@[(k - start) % 4] as int, color@[3] as int) % 256) as u8
        } else {
            old_buf[k]
        } by {
            if start <= k < start + len {
                let i = k - start;
                assert(old_region[i] == old_buf[k]);
                if (i / 4) * 4 + 3 < len {
                    assert(old_region[(i / 4) * 4 + 3] == old_buf[start + (i / 4) * 4 + 3]);
                }
            }
        }
    }
}

/// `U8Kernel::alpha_composite_shader` on `buf[start..start + len]`, the
/// shaded colors `src` having the same length.
pub fn composite_shader_at(buf: &mut [u8], start: usize, len: usize, src: &[u8])
    requires
        start + len <= old(buf)@.len(),
        src@.len() == len,
    ensures
        final(buf)@.len() == old(buf)@.len(),
        forall|k: int|
            0 <= k < old(buf)@.len() ==> #[trigger] final(buf)@[k] == if start <= k < start + (len / 32) * 32 {
                (src_over_channel(old(buf)@[k] as int, src@[k - start] as int, src@[((k - start) / 4) * 4 + 3] as int) % 256) as u8
            } else {
                old(buf)@[k]
            },
{
    let ghost old_buf = buf@;
    let (head, tail) = buf.split_at_mut(start);
    let (region, rest) = tail.split_at_mut(len);
    let ghost old_region = region@;
    assert(old_region =~= old_buf.subrange(start as int, start + len));
    U8Kernel::alpha_composite_shader(region, src);
    let ghost (h, r, t) = (head@, region@, rest@);
    proof {
        assert(h =~= old_buf.subrange(0, start as int));
        assert(t =~= old_buf.subrange(start + len, old_buf.len() as int));
        assert(buf@ =~= h + r + t);
        lemma_region(buf@, h, r, t, start as int);
        assert(old_buf =~= h + old_region + t);
        lemma_region(old_buf, h, old_region, t, start as int);
        assert forall|k: int| 0 <= k < old_buf.len() implies #[trigger] buf@[k] == if start <= k < start + (len / 32) * 32 {
            (src_over_channel(old_buf[k] as int, src@[k - start] as int, src@[((k - start) / 4) * 4 + 3] as int) % 256) as u8
        } else {
            old_buf[k]
        } by {
            if start <= k < start + len {
                let i = k - start;
                assert(old_region[i] == old_buf[k]);
                if (i / 4) * 4 + 3 < len {
                    assert(old_region[(i / 4) * 4 + 3] == old_buf[start + (i / 4) * 4 + 3]);
                }
            }
        }
    }
}

/// `U8Kernel::blend` on `buf[start..start + len]`.
#[verifier::spinoff_prover]
#[verifier::rlimit(50)]
pub fn blend_at<C: ColorSource>(buf: &mut [u8], start: usize, len: usize, src: &C, mode: Compose)
    requires
        start + len <= old(buf)@.len(),
        src.has_colors((len as int / 32) * 8),
    ensures
        final(buf)@.len() == old(buf)@.len(),
        forall|k: int|
            0 <= k < old(buf)@.len() ==> #[trigger] final(buf)@[k] == if start <= k < start + (len / 32) * 32 {
                compose_channel(mode, source_component(*src, k - start), source_alpha(*src, k - start), old(buf)@[k] as int, old(buf)@[start + ((k - start) / 4) * 4 + 3] as int, 255) as u8
            } else {
                old(buf)@[k]
            },
{
    let ghost old_buf = buf@;
    let (head, tail) = buf.split_at_mut(start);
    let (region, rest) = tail.split_at_mut(len);
    let ghost old_region = region@;
    assert(old_region =~= old_buf.subrange(start as int, start + len));
    U8Kernel::blend(region, src, mode);
    let ghost (h, r, t) = (head@, region@, rest@);
    proof {
        assert(h =~= old_buf.subrange(0, start as int));
        assert(t =~= old_buf.subrange(start + len, old_buf.len() as int));
        assert(buf@ =~= h + r + t);
        lemma_region(buf@, h, r, t, start as int);
        assert(old_buf =~= h + old_region + t);
        lemma_region(old_buf, h, old_region, t, start as int);
        assert forall|k: int| 0 <= k < old_buf.len() implies #[trigger] buf@[k] == if start <= k < start + (len / 32) * 32 {
            compose_channel(mode, source_component(*src, k - start), source_alpha(*src, k - start), old_buf[k] as int, old_buf[start + ((k - start) / 4) * 4 + 3] as int, 255) as u8
        } else {
            old_buf[k]
        } by {
            if start <= k < start + len {
                let i = k - start;
                assert(old_region[i] == old_buf[k]);
                if (i / 4) * 4 + 3 < len {
                    assert(old_region[(i / 4) * 4 + 3] == old_buf[start + (i / 4) * 4 + 3]);
                }
            }
        }
    }
}

/// `U8Kernel::alpha_composite_solid_with_alphas` on `buf[start..start + len]`.
pub fn composite_solid_with_alphas_at(buf: &mut [u8], start: usize, len: usize, color: [u8; 4], alphas: &[u8])
    requires
        start + len <= old(buf)@.len(),
        forall|i: int|
            0 <= i < strip_components(len as int, alphas@.len() as int) ==> #[trigger] strip_channel_sum(
                old(buf)@[start + i] as int,
                color@[i % 4] as int,
                color@[3] as int,
                alphas@[i / 4] as int,
            ) < 65280,
    ensures
        final(buf)@.len() == old(buf)@.len(),
        forall|k: int|
            0 <= k < old(buf)@.len() ==> #[trigger] final(buf)@[k] == if start <= k < start + strip_components(len as int, alphas@.len() as int) {
                strip_channel(old(buf)@[k] as int, color@[(k - start) % 4] as int, color@[3] as int, alphas@[(k - start) / 4] as int) as u8
            } else {
                old(buf)@[k]
            },
{
    let ghost old_buf = buf@;
    let (head, tail) = buf.split_at_mut(start);
    let (region, rest) = tail.split_at_mut(len);
    let ghost old_region = region@;
    assert(old_region =~= old_buf.subrange(start as int, start + len));
    assert forall|i: int| 0 <= i < strip_components(len as int, alphas@.len() as int) implies #[trigger] strip_channel_sum(
        old_region[i] as int,
        color@[i % 4] as int,
        color@[3] as int,
        alphas@[i / 4] as int,
    ) < 65280 by {
        assert(old_region[i] == old_buf[start + i]);
    }
    U8Kernel::alpha_composite_solid_with_alphas(region, color, alphas);
    let ghost (h, r, t) = (head@, region@, rest@);
    proof {
        assert(h =~= old_buf.subrange(0, start as int));
        assert(t =~= old_buf.subrange(start + len, old_buf.len() as int));
        assert(buf@ =~= h + r + t);
        lemma_region(buf@, h, r, t, start as int);
        assert(old_buf =~= h + old_region + t);
        lemma_region(old_buf, h, old_region, t, start as int);
        assert forall|k: int| 0 <= k < old_buf.len() implies #[trigger] buf@[k] == if start <= k < start + strip_components(len as int, alphas@.len() as int) {
            strip_channel(old_buf[k] as int, color@[(k - start) % 4] as int, color@[3] as int, alphas@[(k - start) / 4] as int) as u8
        } else {
            old_buf[k]
        } by {
            if start <= k < start + len {
                let i = k - start;
                assert(old_region[i] == old_buf[k]);
                if (i / 4) * 4 + 3 < len {
                    assert(old_region[(i / 4) * 4 + 3] == old_buf[start + (i / 4) * 4 + 3]);
                }
            }
        }
    }
}

/// `U8Kernel::alpha_composite_shader_with_alphas` on `buf[start..start + len]`,
/// the shaded colors `src` having the same length.
pub fn composite_shader_with_alphas_at(buf: &mut [u8], start: usize, len: usize, src: &[u8], alphas: &[u8])
    requires
        start + len <= old(buf)@.len(),
        src@.len() == len,
        forall|i: int|
            0 <= i < strip_components(paired_components(len as int, len as int), alphas@.len() as int) ==> #[trigger] strip_channel_sum(
                old(buf)@[start + i] as int,
                src@[i] as int,
                src@[(i / 4) * 4 + 3] as int,
                alphas@[i / 4] as int,
            ) < 65280,
    ensures
        final(buf)@.len() == old(buf)@.len(),
        forall|k: int|
            0 <= k < old(buf)@.len() ==> #[trigger] final(buf)@[k] == if start <= k < start + strip_components(paired_components(len as int, len as int), alphas@.len() as int) {
                strip_channel(old(buf)@[k] as int, src@[k - start] as int, src@[((k - start) / 4) * 4 + 3] as int, alphas@[(k - start) / 4] as int) as u8
            } else {
                old(buf)@[k]
            },
{
    let ghost old_buf = buf@;
    let (head, tail) = buf.split_at_mut(start);
    let (region, rest) = tail.split_at_mut(len);
    let ghost old_region = region@;
    assert(old_region =~= old_buf.subrange(start as int, start + len));
    assert forall|i: int| 0 <= i < strip_components(paired_components(len as int, len as int), alphas@.len() as int) implies #[trigger] strip_channel_sum(
        old_region[i] as int,
        src@[i] as int,
        src@[(i / 4) * 4 + 3] as int,
        alphas@[i / 4] as int,
    ) < 65280 by {
        assert(old_region[i] == old_buf[start + i]);
    }
    U8Kernel::alpha_composite_shader_with_alphas(region, src, alphas);
    let ghost (h, r, t) = (head@, region@, rest@);
    proof {
        assert(h =~= old_buf.subrange(0, start as int));
        assert(t =~= old_buf.subrange(start + len, old_buf.len() as int));
        assert(buf@ =~= h + r + t);
        lemma_region(buf@, h, r, t, start as int);
        assert(old_buf =~= h + old_region + t);
        lemma_region(old_buf, h, old_region, t, start as int);
        assert forall|k: int| 0 <= k < old_buf.len() implies #[trigger] buf@[k] == if start <= k < start + strip_components(paired_components(len as int, len as int), alphas@.len() as int) {
            strip_channel(old_buf[k] as int, src@[k - start] as int, src@[((k - start) / 4) * 4 + 3] as int, alphas@[(k - start) / 4] as int) as u8
        } else {
            old_buf[k]
        } by {
            if start <= k < start + len {
                let i = k - start;
                assert(old_region[i] == old_buf[k]);
                if (i / 4) * 4 + 3 < len {
                    assert(old_region[(i / 4) * 4 + 3] == old_buf[start + (i / 4) * 4 + 3]);
                }
            }
        }
    }
}

/// `U8Kernel::blend_with_alphas` on `buf[start..start + len]`.
#[verifier::spinoff_prover]
#[verifier::rlimit(50)]
pub fn blend_with_alphas_at<C: ColorSource>(buf: &mut [u8], start: usize, len: usize, src: &C, mode: Compose, alphas: &[u8])
    requires
        start + len <= old(buf)@.len(),
        src.has_colors(strip_components(len as int, alphas@.len() as int) / 4),
    ensures
        final(buf)@.len() == old(buf)@.len(),
        forall|k: int|
            0 <= k < old(buf)@.len() ==> #[trigger] final(buf)@[k] == if start <= k < start + strip_components(len as int, alphas@.len() as int) {
                compose_channel(mode, source_component(*src, k - start), source_alpha(*src, k - start), old(buf)@[k] as int, old(buf)@[start + ((k - start) / 4) * 4 + 3] as int, alphas@[(k - start) / 4] as int) as u8
            } else {
                old(buf)@[k]
            },
{
    let ghost old_buf = buf@;
    let (head, tail) = buf.split_at_mut(start);
    let (region, rest) = tail.split_at_mut(len);
    let ghost old_region = region@;
    assert(old_region =~= old_buf.subrange(start as int, start + len));
    U8Kernel::blend_with_alphas(region, src, mode, alphas);
    let ghost (h, r, t) = (head@, region@, rest@);
    proof {
        assert(h =~= old_buf.subrange(0, start as int));
        assert(t =~= old_buf.subrange(start + len, old_buf.len() as int));
        assert(buf@ =~= h + r + t);
        lemma_region(buf@, h, r, t, start as int);
        assert(old_buf =~= h + old_region + t);
        lemma_region(old_buf, h, old_region, t, start as int);
        assert forall|k: int| 0 <= k < old_buf.len() implies #[trigger] buf@[k] == if start <= k < start + strip_components(len as int, alphas@.len() as int) {
            compose_channel(mode, source_component(*src, k - start), source_alpha(*src, k - start), old_buf[k] as int, old_buf[start + ((k - start) / 4) * 4 + 3] as int, alphas@[(k - start) / 4] as int) as u8
        } else {
            old_buf[k]
        } by {
            if start <= k < start + len {
                let i = k - start;
                assert(old_region[i] == old_buf[k]);
                if (i / 4) * 4 + 3 < len {
                    assert(old_region[(i / 4) * 4 + 3] == old_buf[start + (i / 4) * 4 + 3]);
                }
            }
        }
    }
}

} // verus!
