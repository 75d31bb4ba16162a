//! Lane-wise operations on the 8- and 16-bit vectors of the kernels. Integer
//! lanes wrap around on overflow.

use vstd::prelude::*;
use crate::div255::{div_255, div_255_spec, lemma_channel_product_bound};

verus! {

/// Load thirty-two components from a slice of exactly thirty-two.
pub fn load_u8x32(src: &[u8]) -> (r: [u8; 32])
    requires
        src@.len() == 32,
    ensures
        r@ == src@,
{
    let mut r = [0u8; 32];
    let mut i: usize = 0;
    while i < 32
        invariant
            src@.len() == 32,
            i <= 32,
            forall|j: int| 0 <= j < i ==> r@[j] == src@[j],
        decreases 32 - i,
    {
        r[i] = src[i];
        i = i + 1;
    }
    assert(r@ =~= src@);
    r
}

/// Store thirty-two components into a slice of exactly thirty-two.
pub fn store_u8x32(v: &[u8; 32], dest: &mut [u8])
    requires
        old(dest)@.len() == 32,
    ensures
        final(dest)@ == v@,
{
    let mut i: usize = 0;
    while i < 32
        invariant
            dest@.len() == 32,
            i <= 32,
            forall|j: int| 0 <= j < i ==> dest@[j] == v@[j],
        decreases 32 - i,
    {
        dest[i] = v[i];
        i = i + 1;
    }
    assert(dest@ =~= v@);
}

/// Every lane set to `value`.
pub fn splat_u8x32(value: u8) -> (r: [u8; 32])
    ensures
        forall|i: int| 0 <= i < 32 ==> r@[i] == value,
{
    [value; 32]
}

/// The color `color` repeated over the eight pixels of the vector.
pub fn splat_color_u8x32(color: [u8; 4]) -> (r: [u8; 32])
    ensures
        forall|i: int| 0 <= i < 32 ==> r@[i] == color@[i % 4],
{
    let mut r = [0u8; 32];
    let mut i: usize = 0;
    while i < 32
        invariant
            i <= 32,
            forall|j: int| 0 <= j < i ==> r@[j] == color@[j % 4],
        decreases 32 - i,
    {
        r[i] = color[i % 4];
        i = i + 1;
    }
    r
}

/// Add lane by lane, wrapping around.
pub fn add_u8x32(a: [u8; 32], b: [u8; 32]) -> (r: [u8; 32])
    ensures
        forall|i: int| 0 <= i < 32 ==> r@[i] == (a@[i] + b@[i]) % 256,
{
    let mut r = [0u8; 32];
    let mut i: usize = 0;
    while i < 32
        invariant
            i <= 32,
            forall|j: int| 0 <= j < i ==> r@[j] == (a@[j] + b@[j]) % 256,
        decreases 32 - i,
    {
        r[i] = a[i].wrapping_add(b[i]);
        i = i + 1;
    }
    r
}

/// Subtract lane by lane, wrapping around.
pub fn sub_u8x32(a: [u8; 32], b: [u8; 32]) -> (r: [u8; 32])
    ensures
        forall|i: int| 0 <= i < 32 ==> r@[i] == (a@[i] - b@[i] + 256) % 256,
{
    let mut r = [0u8; 32];
    let mut i: usize = 0;
    while i < 32
        invariant
            i <= 32,
            forall|j: int| 0 <= j < i ==> r@[j] == (a@[j] - b@[j] + 256) % 256,
        decreases 32 - i,
    {
        r[i] = a[i].wrapping_sub(b[i]);
        i = i + 1;
    }
    r
}

/// Multiply lane by lane after widening to 16 bits, then divide by 255 with
/// `div_255`: each lane is `div_255(a * b)`, a channel value.
pub fn normalized_mul(a: [u8; 32], b: [u8; 32]) -> (r: [u16; 32])
    ensures
        forall|i: int| 0 <= i < 32 ==> r@[i] == div_255_spec(a@[i] * b@[i]),
        forall|i: int| 0 <= i < 32 ==> r@[i] <= 255,
{
    let mut r = [0u16; 32];
    let mut i: usize = 0;
    while i < 32
        invariant
            i <= 32,
            forall|j: int| 0 <= j < i ==> r@[j] == div_255_spec(a@[j] * b@[j]),
            forall|j: int| 0 <= j < i ==> r@[j] <= 255,
        decreases 32 - i,
    {
        let x: u16 = a[i] as u16;
        let y: u16 = b[i] as u16;
        proof {
            lemma_channel_product_bound(x, y);
        }
        r[i] = div_255(x * y);
        i = i + 1;
    }
    r
}

/// Keep the low eight bits of every lane.
pub fn narrow_u16x32(a: [u16; 32]) -> (r: [u8; 32])
    ensures
        forall|i: int| 0 <= i < 32 ==> r@[i] == a@[i] % 256,
{
    let mut r = [0u8; 32];
    let mut i: usize = 0;
    while i < 32
        invariant
            i <= 32,
            forall|j: int| 0 <= j < i ==> r@[j] == a@[j] % 256,
        decreases 32 - i,
    {
        let v: u16 = a[i];
        let b: u8 = v as u8;
        assert(b == v % 256) by (bit_vector)
            requires
                b == v as u8,
        ;
        r[i] = b;
        i = i + 1;
    }
    r
}

/// Multiply lane by lane, reading each lane as a fraction of 255, staying in
/// 8 bits: each lane is `div_255(a * b)`.
pub fn normalized_mul_u8x32(a: [u8; 32], b: [u8; 32]) -> (r: [u8; 32])
    ensures
        forall|i: int| 0 <= i < 32 ==> r@[i] == div_255_spec(a@[i] * b@[i]),
{
    narrow_u16x32(normalized_mul(a, b))
}

/// The component values of the masks `masks[0..8]`, each repeated over the four
/// components of its pixel.
pub fn extract_masks(masks: &[u8]) -> (r: [u8; 32])
    requires
        masks@.len() >= 8,
    ensures
        forall|i: int| 0 <= i < 32 ==> r@[i] == masks@[i / 4],
{
    let mut r = [0u8; 32];
    let mut i: usize = 0;
    while i < 32
        invariant
            masks@.len() >= 8,
            i <= 32,
            forall|j: int| 0 <= j < i ==> r@[j] == masks@[j / 4],
        decreases 32 - i,
    {
        r[i] = masks[i / 4];
        i = i + 1;
    }
    r
}

} // verus!

verus! {

/// Widen every lane to 16 bits.
pub fn widen_u8x32(a: [u8; 32]) -> (r: [u16; 32])
    ensures
        forall|i: int| 0 <= i < 32 ==> r@[i] == a@[i],
{
    let mut r = [0u16; 32];
    let mut i: usize = 0;
    while i < 32
        invariant
            i <= 32,
            forall|j: int| 0 <= j < i ==> r@[j] == a@[j],
        decreases 32 - i,
    {
        r[i] = a[i] as u16;
        i = i + 1;
    }
    r
}

/// Every lane set to `value`.
pub fn splat_u16x32(value: u16) -> (r: [u16; 32])
    ensures
        forall|i: int| 0 <= i < 32 ==> r@[i] == value,
{
    [value; 32]
}

/// Add lane by lane, wrapping around.
pub fn add_u16x32(a: [u16; 32], b: [u16; 32]) -> (r: [u16; 32])
    ensures
        forall|i: int| 0 <= i < 32 ==> r@[i] == (a@[i] + b@[i]) % 65536,
{
    let mut r = [0u16; 32];
    let mut i: usize = 0;
    while i < 32
        invariant
            i <= 32,
            forall|j: int| 0 <= j < i ==> r@[j] == (a@[j] + b@[j]) % 65536,
        decreases 32 - i,
    {
        r[i] = a[i].wrapping_add(b[i]);
        i = i + 1;
    }
    r
}

/// Multiply lane by lane, wrapping around.
pub fn mul_u16x32(a: [u16; 32], b: [u16; 32]) -> (r: [u16; 32])
    ensures
        forall|i: int| 0 <= i < 32 ==> r@[i] == (a@[i] * b@[i]) % 65536,
{
    let mut r = [0u16; 32];
    let mut i: usize = 0;
    while i < 32
        invariant
            i <= 32,
            forall|j: int| 0 <= j < i ==> r@[j] == (a@[j] * b@[j]) % 65536,
        decreases 32 - i,
    {
        r[i] = a[i].wrapping_mul(b[i]);
        i = i + 1;
    }
    r
}

/// The smaller of the two values, lane by lane.
pub fn min_u16x32(a: [u16; 32], b: [u16; 32]) -> (r: [u16; 32])
    ensures
        forall|i: int| 0 <= i < 32 ==> r@[i] == if a@[i] <= b@[i] { a@[i] } else { b@[i] },
{
    let mut r = [0u16; 32];
    let mut i: usize = 0;
    while i < 32
        invariant
            i <= 32,
            forall|j: int| 0 <= j < i ==> r@[j] == if a@[j] <= b@[j] { a@[j] } else { b@[j] },
        decreases 32 - i,
    {
        r[i] = if a[i] <= b[i] { a[i] } else { b[i] };
        i = i + 1;
    }
    r
}

/// The larger of the two values, lane by lane.
pub fn max_u16x32(a: [u16; 32], b: [u16; 32]) -> (r: [u16; 32])
    ensures
        forall|i: int| 0 <= i < 32 ==> r@[i] == if a@[i] >= b@[i] { a@[i] } else { b@[i] },
{
    let mut r = [0u16; 32];
    let mut i: usize = 0;
    while i < 32
        invariant
            i <= 32,
            forall|j: int| 0 <= j < i ==> r@[j] == if a@[j] >= b@[j] { a@[j] } else { b@[j] },
        decreases 32 - i,
    {
        r[i] = if a[i] >= b[i] { a[i] } else { b[i] };
        i = i + 1;
    }
    r
}

/// Apply `div_255` to every lane; every lane must be below 65280.
pub fn div_255_u16x32(a: [u16; 32]) -> (r: [u16; 32])
    requires
        forall|i: int| 0 <= i < 32 ==> a@[i] < 65280,
    ensures
        forall|i: int| 0 <= i < 32 ==> r@[i] == div_255_spec(a@[i] as int),
        forall|i: int| 0 <= i < 32 ==> r@[i] <= 255,
{
    let mut r = [0u16; 32];
    let mut i: usize = 0;
    while i < 32
        invariant
            i <= 32,
            forall|j: int| 0 <= j < 32 ==> a@[j] < 65280,
            forall|j: int| 0 <= j < i ==> r@[j] == div_255_spec(a@[j] as int),
            forall|j: int| 0 <= j < i ==> r@[j] <= 255,
        decreases 32 - i,
    {
        r[i] = div_255(a[i]);
        i = i + 1;
    }
    r
}

/// Store thirty-two components into `dest[offset..offset + 32]`.
pub fn store_u8x32_at(v: &[u8; 32], dest: &mut [u8], offset: usize)
    requires
        offset + 32 <= old(dest)@.len(),
    ensures
        final(dest)@.len() == old(dest)@.len(),
        forall|k: int|
            0 <= k < old(dest)@.len() ==> #[trigger] final(dest)@[k] == if offset <= k < offset
                + 32 {
                v@[k - offset]
            } else {
                old(dest)@[k]
            },
{
    let ghost old_dest = dest@;
    let dest_len = dest.len();
    let mut i: usize = 0;
    while i < 32
        invariant
            offset + 32 <= old_dest.len(),
            dest_len == old_dest.len(),
            dest@.len() == old_dest.len(),
            i <= 32,
            forall|k: int|
                0 <= k < old_dest.len() ==> #[trigger] dest@[k] == if offset <= k < offset + i {
                    v@[k - offset]
                } else {
                    old_dest[k]
                },
        decreases 32 - i,
    {
        dest[offset + i] = v[i];
        i = i + 1;
    }
}

} // verus!
