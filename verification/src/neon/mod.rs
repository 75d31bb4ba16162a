//! The lane types of the NEON SIMD level, written portably: each type holds
//! its lanes as plain integers, and lane arithmetic wraps around as the NEON
//! instructions do.

use vstd::prelude::*;

pub mod u32x16;
pub mod u32x4;
pub mod u32x8;
pub mod u8x16;
pub mod u8x32;
pub mod u8x64;
pub mod pack;

verus! {

/// Division by 255 as the NEON rendition computes it on 16-bit lanes:
/// `(x + 255) >> 8`, the sum wrapping around.
pub open spec fn wrapping_div_255_spec(x: int) -> int {
    ((x + 255) % 65536) / 256
}

/// The NEON SIMD level, available only where the CPU has NEON.
#[derive(Copy, Clone, Debug)]
pub struct Neon(NeonImpl);

#[derive(Copy, Clone, Debug)]
struct NeonImpl;

impl Neon {
    /// The NEON level, if `neon_detected` (whether the running CPU has NEON) holds.
    pub fn new(neon_detected: bool) -> (r: Option<Self>)
        ensures
            r is Some <==> neon_detected,
    {
        if neon_detected {
            Some(Self(NeonImpl))
        } else {
            None
        }
    }
}

/// `(x + 255) >> 8` on one 16-bit lane, the sum wrapping around.
pub fn div_255(x: u16) -> (r: u16)
    ensures
        r == wrapping_div_255_spec(x as int),
        x < 65280 ==> r == crate::div255::div_255_spec(x as int),
{
    let p2: u16 = x.wrapping_add(255);
    let r: u16 = p2 >> 8;
    assert(r == p2 / 256) by (bit_vector)
        requires
            r == p2 >> 8,
    ;
    r
}

} // verus!
