//! Experimental fill routines, kept for benchmarking.

use vstd::prelude::*;

verus! {

/// The number of rows in a tile.
pub const HEIGHT: usize = 4;

/// The number of columns in a wide tile.
pub const WIDETILE_WIDTH: usize = 256;

/// The number of components in the scratch buffer of a wide tile.
pub const SCRATCH_BUF_SIZE: usize = 4096;

/// Fill the first `width` columns of `blend_buf` with an opaque color, sixty-four
/// components at a time; components after the last full group of sixty-four are
/// left unchanged. The pixel written is `color_u8` read as a big-endian 32-bit
/// word and stored back little-endian, as the NEON rendition does: its bytes in
/// reverse order. `color` is not used.
pub fn opaque_u8(blend_buf: &mut [u8], color: u32, color_u8: [u8; 4], width: usize)
    requires
        width * HEIGHT * 4 <= old(blend_buf)@.len(),
    ensures
        final(blend_buf)@.len() == old(blend_buf)@.len(),
        forall|k: int|
            0 <= k < old(blend_buf)@.len() ==> #[trigger] final(blend_buf)@[k] == if k < (width
                * HEIGHT * 4 / 64) * 64 {
                color_u8@[3 - k % 4]
            } else {
                old(blend_buf)@[k]
            },
{
    let ghost old_buf = blend_buf@;
    let pixel = [color_u8[3], color_u8[2], color_u8[1], color_u8[0]];
    let len = blend_buf.len();
    assert(width * HEIGHT * 4 <= len);
    let end = (width * HEIGHT * 4 / 64) * 64;
    let mut k: usize = 0;
    while k < end
        invariant
            k <= end,
            end <= old_buf.len(),
            blend_buf@.len() == old_buf.len(),
            pixel@ == seq![color_u8@[3], color_u8@[2], color_u8@[1], color_u8@[0]],
            forall|j: int|
                0 <= j < old_buf.len() ==> #[trigger] blend_buf@[j] == if j < k {
                    color_u8@[3 - j % 4]
                } else {
                    old_buf[j]
                },
        decreases end - k,
    {
        blend_buf[k] = pixel[k % 4];
        k = k + 1;
    }
}

} // verus!
