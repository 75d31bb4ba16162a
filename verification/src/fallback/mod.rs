//! The portable implementation of the SIMD lane types.

use vstd::prelude::*;

pub mod u32x4;
pub mod u32x8;
pub mod u8x16;
pub mod u8x32;
use crate::div255::{div_255, div_255_spec, normalized_mul_spec, lemma_channel_product_bound};
use crate::{Base, NumberKind};

verus! {

/// The portable SIMD level.
#[derive(Copy, Clone, Debug)]
pub struct Fallback;

impl Base for u8 {}
impl Base for u16 {}

impl NumberKind for u8 {
    const ZERO: Self = 0;
    const MID: Self = 127;
    const ONE: Self = 255;

    open spec fn rgba8_of(src: Seq<u8>) -> Seq<u8> {
        src
    }

    fn to_rgba8(src: &[u8]) -> (r: [u8; 4]) {
        let r = [src[0], src[1], src[2], src[3]];
        assert(r@ =~= src@.take(4));
        r
    }

    fn from_rgba8(src: &[u8; 4]) -> (r: [u8; 4])
        ensures
            r == *src,
    {
        *src
    }

    fn normalized_mul(&self, other: u8) -> (r: u8)
        ensures
            r == normalized_mul_spec(*self as int, other as int),
    {
        let a: u16 = *self as u16;
        let b: u16 = other as u16;
        proof {
            lemma_channel_product_bound(a, b);
        }
        let p: u16 = a * b;
        div_255(p) as u8
    }
}

} // verus!
