//! The fast, approximate division by 255 that the whole pipeline relies on,
//! and the normalized multiplication of two 8-bit channel values built on it.

use vstd::prelude::*;

verus! {

/// The exact value that `div_255` computes: the ceiling of `val / 256`,
/// written as `(val + 255) / 256`.
pub open spec fn div_255_spec(val: int) -> int {
    (val + 255) / 256
}

/// The product of two channel values, each read as a fraction of 255, as the
/// pipeline computes it: `div_255(a * b)`.
pub open spec fn normalized_mul_spec(a: int, b: int) -> int {
    div_255_spec(a * b)
}

/// Perform an approximate division by 255.
///
/// This calculates `(val + 255) >> 8`, the ceiling of `val / 256`. Within the
/// allowed range (`val < 65280`) it never differs from `val / 255` by more than
/// one, it is exact for multiples of 255, and when it differs it is one too high.
pub fn div_255(val: u16) -> (r: u16)
    requires
        val < 65280,
    ensures
        r == div_255_spec(val as int),
        r <= 255,
{
    let s: u16 = val + 255;
    let r: u16 = s >> 8;
    assert(r == s / 256) by (bit_vector)
        requires r == s >> 8;
    r
}

} // verus!

verus! {

/// `div_255` is never below the exact quotient `val / 255` and never more than
/// one above it.
pub proof fn lemma_div_255_error_at_most_one(val: u16)
    requires
        val < 65280,
    ensures
        val / 255 <= div_255_spec(val as int) <= val / 255 + 1,
{
    assert(val / 255 <= (val + 255) / 256 && (val + 255) / 256 <= val / 255 + 1) by (bit_vector)
        requires
            val < 65280,
    ;
}

/// `div_255` is exact on multiples of 255: `div_255(v * 255) == v` for every
/// channel value `v`.
pub proof fn lemma_div_255_exact_on_multiples(v: u8)
    ensures
        div_255_spec(v * 255) == v,
{
    assert(((v as u16) * 255 + 255) / 256 == v as u16) by (bit_vector);
}

/// `div_255` is monotonic.
pub proof fn lemma_div_255_monotonic(a: u16, b: u16)
    requires
        a <= b,
        b < 65280,
    ensures
        div_255_spec(a as int) <= div_255_spec(b as int),
{
    assert((a + 255) / 256 <= (b + 255) / 256) by (bit_vector)
        requires
            a <= b,
            b < 65280,
    ;
}

} // verus!

verus! {

/// The product of two channel values stays below the bound that `div_255`
/// requires.
pub proof fn lemma_channel_product_bound(a: u16, b: u16)
    requires
        a <= 255,
        b <= 255,
    ensures
        a * b <= 65025,
{
    assert(a * b <= 255 * 255) by (nonlinear_arith)
        requires
            a <= 255,
            b <= 255,
    ;
}

} // verus!

verus! {

/// `div_255` maps every value in its range to a channel value.
pub proof fn lemma_div_255_bound(val: u16)
    requires
        val < 65280,
    ensures
        div_255_spec(val as int) <= 255,
{
    assert((val + 255) / 256 <= 255) by (bit_vector)
        requires
            val < 65280,
    ;
}

} // verus!

verus! {

/// The normalized product of a channel value with full intensity (255) is the
/// value itself, and with zero it is zero.
pub proof fn lemma_normalized_mul_identity_and_zero(a: u8)
    ensures
        normalized_mul_spec(a as int, 255) == a,
        normalized_mul_spec(a as int, 0) == 0,
{
    lemma_div_255_exact_on_multiples(a);
}

/// The normalized product does not depend on the order of its factors and is
/// never above either of them.
pub proof fn lemma_normalized_mul_symmetric_and_bounded(a: u8, b: u8)
    ensures
        normalized_mul_spec(a as int, b as int) == normalized_mul_spec(b as int, a as int),
        normalized_mul_spec(a as int, b as int) <= a,
        normalized_mul_spec(a as int, b as int) <= b,
{
    assert(a * b == b * a) by (nonlinear_arith);
    assert(((a as u16) * (b as u16) + 255) / 256 <= a as u16) by (bit_vector);
    assert(((a as u16) * (b as u16) + 255) / 256 <= b as u16) by (bit_vector);
}

} // verus!
