//! Sixteen 8-bit lanes and sixteen 16-bit lanes, one NEON register's worth
//! (two for the 16-bit lanes). Lane arithmetic wraps around, as the NEON
//! instructions do.

use vstd::prelude::*;
use crate::div255::div_255_spec;
use crate::neon::{div_255, wrapping_div_255_spec};

verus! {

/// Sixteen 8-bit lanes.
#[derive(Copy, Clone, Debug)]
pub struct u8x16([u8; 16]);

impl View for u8x16 {
    type V = Seq<u8>;

    closed spec fn view(&self) -> Seq<u8> {
        self.0@
    }
}

/// Sixteen 16-bit lanes.
#[derive(Copy, Clone, Debug)]
pub struct u16x16([u16; 16]);

impl View for u16x16 {
    type V = Seq<u16>;

    closed spec fn view(&self) -> Seq<u16> {
        self.0@
    }
}

impl u8x16 {
    /// A vector always has 16 lanes.
    pub broadcast proof fn lemma_len(v: u8x16)
        ensures
            (#[trigger] v@).len() == 16,
    {
    }

    /// The vector whose lanes are `lanes`.
    pub fn from_array(lanes: [u8; 16]) -> (r: Self)
        ensures
            r@ == lanes@,
    {
        u8x16(lanes)
    }

    /// The lanes of the vector.
    pub fn to_array(self) -> (r: [u8; 16])
        ensures
            r@ == self@,
    {
        self.0
    }

    /// Set every lane to `value`.
    pub fn splat(value: u8) -> (r: Self)
        ensures
            r@.len() == 16,
            forall|i: int| 0 <= i < 16 ==> r@[i] == value,
    {
        u8x16([value; 16])
    }

    /// Add lane by lane, wrapping around.
    pub fn add(self, rhs: Self) -> (r: Self)
        ensures
            r@.len() == 16,
            forall|i: int| 0 <= i < 16 ==> r@[i] == (self@[i] + rhs@[i]) % 256,
    {
        let mut res = self;
        let mut i: usize = 0;
        while i < 16
            invariant
                i <= 16,
                forall|j: int| 0 <= j < i ==> res@[j] == (self@[j] + rhs@[j]) % 256,
                forall|j: int| i <= j < 16 ==> res@[j] == self@[j],
            decreases 16 - i,
        {
            assert(res@[i as int] == self@[i as int] && rhs@[i as int] == rhs.0[i as int]);
            let a: u8 = res.0[i];
            let b: u8 = rhs.0[i];
            res.0[i] = a.wrapping_add(b);
            i = i + 1;
        }
        res
    }

    /// Multiply lane by lane, wrapping around.
    pub fn mul(self, rhs: Self) -> (r: Self)
        ensures
            r@.len() == 16,
            forall|i: int| 0 <= i < 16 ==> r@[i] == (self@[i] * rhs@[i]) % 256,
    {
        let mut res = self;
        let mut i: usize = 0;
        while i < 16
            invariant
                i <= 16,
                forall|j: int| 0 <= j < i ==> res@[j] == (self@[j] * rhs@[j]) % 256,
                forall|j: int| i <= j < 16 ==> res@[j] == self@[j],
            decreases 16 - i,
        {
            assert(res@[i as int] == self@[i as int] && rhs@[i as int] == rhs.0[i as int]);
            let a: u8 = res.0[i];
            let b: u8 = rhs.0[i];
            res.0[i] = a.wrapping_mul(b);
            i = i + 1;
        }
        res
    }

    /// Subtract lane by lane, wrapping around.
    pub fn sub(self, rhs: Self) -> (r: Self)
        ensures
            r@.len() == 16,
            forall|i: int| 0 <= i < 16 ==> r@[i] == (self@[i] - rhs@[i] + 256) % 256,
    {
        let mut res = self;
        let mut i: usize = 0;
        while i < 16
            invariant
                i <= 16,
                forall|j: int| 0 <= j < i ==> res@[j] == (self@[j] - rhs@[j] + 256) % 256,
                forall|j: int| i <= j < 16 ==> res@[j] == self@[j],
            decreases 16 - i,
        {
            assert(res@[i as int] == self@[i as int] && rhs@[i as int] == rhs.0[i as int]);
            let a: u8 = res.0[i];
            let b: u8 = rhs.0[i];
            res.0[i] = a.wrapping_sub(b);
            i = i + 1;
        }
        res
    }

    /// The smaller of the two values, lane by lane.
    pub fn min(self, rhs: Self) -> (r: Self)
        ensures
            r@.len() == 16,
            forall|i: int| 0 <= i < 16 ==> r@[i] == if self@[i] <= rhs@[i] { self@[i] } else { rhs@[i] },
    {
        let mut res = self;
        let mut i: usize = 0;
        while i < 16
            invariant
                i <= 16,
                forall|j: int| 0 <= j < i ==> res@[j] == if self@[j] <= rhs@[j] { self@[j] } else { rhs@[j] },
                forall|j: int| i <= j < 16 ==> res@[j] == self@[j],
            decreases 16 - i,
        {
            assert(res@[i as int] == self@[i as int] && rhs@[i as int] == rhs.0[i as int]);
            let a: u8 = res.0[i];
            let b: u8 = rhs.0[i];
            res.0[i] = if a <= b { a } else { b };
            i = i + 1;
        }
        res
    }

    /// The larger of the two values, lane by lane.
    pub fn max(self, rhs: Self) -> (r: Self)
        ensures
            r@.len() == 16,
            forall|i: int| 0 <= i < 16 ==> r@[i] == if self@[i] >= rhs@[i] { self@[i] } else { rhs@[i] },
    {
        let mut res = self;
        let mut i: usize = 0;
        while i < 16
            invariant
                i <= 16,
                forall|j: int| 0 <= j < i ==> res@[j] == if self@[j] >= rhs@[j] { self@[j] } else { rhs@[j] },
                forall|j: int| i <= j < 16 ==> res@[j] == self@[j],
            decreases 16 - i,
        {
            assert(res@[i as int] == self@[i as int] && rhs@[i as int] == rhs.0[i as int]);
            let a: u8 = res.0[i];
            let b: u8 = rhs.0[i];
            res.0[i] = if a >= b { a } else { b };
            i = i + 1;
        }
        res
    }

    /// Load sixteen lanes from a slice of exactly sixteen values.
    pub fn load(src: &[u8]) -> (r: Self)
        requires
            src@.len() == 16,
        ensures
            r@ == src@,
    {
        let mut res = [0u8; 16];
        let mut i: usize = 0;
        while i < 16
            invariant
                src@.len() == 16,
                i <= 16,
                forall|j: int| 0 <= j < i ==> res@[j] == src@[j],
            decreases 16 - i,
        {
            res[i] = src[i];
            i = i + 1;
        }
        assert(res@ =~= src@);
        u8x16(res)
    }

    /// Repeat the four values of `src` four times.
    pub fn splat_4(src: [u8; 4]) -> (r: Self)
        ensures
            r@.len() == 16,
            forall|i: int| 0 <= i < 16 ==> r@[i] == src@[i % 4],
    {
        let mut res = [0u8; 16];
        let mut i: usize = 0;
        while i < 16
            invariant
                i <= 16,
                forall|j: int| 0 <= j < i ==> res@[j] == src@[j % 4],
            decreases 16 - i,
        {
            res[i] = src[i % 4];
            i = i + 1;
        }
        u8x16(res)
    }

    /// The vector whose every lane is the 8-bit component `value`.
    pub fn from_normalized_u8(value: u8) -> (r: Self)
        ensures
            r@.len() == 16,
            forall|i: int| 0 <= i < 16 ==> r@[i] == value,
    {
        Self::splat(value)
    }

    /// Widen every lane to 16 bits.
    pub fn widen(self) -> (r: u16x16)
        ensures
            r@.len() == 16,
            forall|i: int| 0 <= i < 16 ==> r@[i] == self@[i],
    {
        let mut res = [0u16; 16];
        let mut i: usize = 0;
        while i < 16
            invariant
                i <= 16,
                forall|j: int| 0 <= j < i ==> res@[j] == self@[j],
            decreases 16 - i,
        {
            assert(self@[i as int] == self.0[i as int]);
            res[i] = self.0[i] as u16;
            i = i + 1;
        }
        u16x16(res)
    }

    /// Multiply lane by lane into 16-bit lanes, without loss.
    pub fn widening_mul(self, other: Self) -> (r: u16x16)
        ensures
            r@.len() == 16,
            forall|i: int| 0 <= i < 16 ==> r@[i] == self@[i] * other@[i],
    {
        let mut res = [0u16; 16];
        let mut i: usize = 0;
        while i < 16
            invariant
                i <= 16,
                forall|j: int| 0 <= j < i ==> res@[j] == self@[j] * other@[j],
            decreases 16 - i,
        {
            assert(self@[i as int] == self.0[i as int] && other@[i as int] == other.0[i as int]);
            let a: u16 = self.0[i] as u16;
            let b: u16 = other.0[i] as u16;
            proof {
                crate::div255::lemma_channel_product_bound(a, b);
            }
            res[i] = a * b;
            i = i + 1;
        }
        u16x16(res)
    }

    /// Multiply lane by lane into 16-bit lanes and divide each product by 255
    /// with `div_255`.
    pub fn normalized_widening_mul(self, other: Self) -> (r: u16x16)
        ensures
            r@.len() == 16,
            forall|i: int| 0 <= i < 16 ==> r@[i] == div_255_spec(self@[i] * other@[i]),
    {
        let mulled = self.widening_mul(other);
        let r = mulled.normalize();
        assert forall|i: int| 0 <= i < 16 implies r@[i] == div_255_spec(self@[i] * other@[i]) by {
            assert(mulled@[i] <= 65025) by {
                crate::div255::lemma_channel_product_bound(self@[i] as u16, other@[i] as u16);
            }
        }
        r
    }

    /// Copy the last lane of each group of four lanes to the whole group.
    pub fn splat_4th_element(self) -> (r: Self)
        ensures
            r@.len() == 16,
            forall|i: int| 0 <= i < 16 ==> r@[i] == self@[(i / 4) * 4 + 3],
    {
        let a = self.0;
        let r = u8x16(
            [
                a[3],
                a[3],
                a[3],
                a[3],
                a[7],
                a[7],
                a[7],
                a[7],
                a[11],
                a[11],
                a[11],
                a[11],
                a[15],
                a[15],
                a[15],
                a[15],
            ],
        );
        assert forall|i: int| 0 <= i < 16 implies r@[i] == self@[(i / 4) * 4 + 3] by {
            assert(0 <= i < 4 || 4 <= i < 8 || 8 <= i < 12 || 12 <= i < 16);
        }
        r
    }
}

impl u16x16 {
    /// A vector always has 16 lanes.
    pub broadcast proof fn lemma_len(v: u16x16)
        ensures
            (#[trigger] v@).len() == 16,
    {
    }

    /// The vector whose lanes are `lanes`.
    pub fn from_array(lanes: [u16; 16]) -> (r: Self)
        ensures
            r@ == lanes@,
    {
        u16x16(lanes)
    }

    /// The lanes of the vector.
    pub fn to_array(self) -> (r: [u16; 16])
        ensures
            r@ == self@,
    {
        self.0
    }

    /// Set every lane to `value`.
    pub fn splat(value: u16) -> (r: Self)
        ensures
            r@.len() == 16,
            forall|i: int| 0 <= i < 16 ==> r@[i] == value,
    {
        u16x16([value; 16])
    }

    /// Add lane by lane, wrapping around.
    pub fn add(self, rhs: Self) -> (r: Self)
        ensures
            r@.len() == 16,
            forall|i: int| 0 <= i < 16 ==> r@[i] == (self@[i] + rhs@[i]) % 65536,
    {
        let mut res = self;
        let mut i: usize = 0;
        while i < 16
            invariant
                i <= 16,
                forall|j: int| 0 <= j < i ==> res@[j] == (self@[j] + rhs@[j]) % 65536,
                forall|j: int| i <= j < 16 ==> res@[j] == self@[j],
            decreases 16 - i,
        {
            assert(res@[i as int] == self@[i as int] && rhs@[i as int] == rhs.0[i as int]);
            let a: u16 = res.0[i];
            let b: u16 = rhs.0[i];
            res.0[i] = a.wrapping_add(b);
            i = i + 1;
        }
        res
    }

    /// Multiply lane by lane, wrapping around.
    pub fn mul(self, rhs: Self) -> (r: Self)
        ensures
            r@.len() == 16,
            forall|i: int| 0 <= i < 16 ==> r@[i] == (self@[i] * rhs@[i]) % 65536,
    {
        let mut res = self;
        let mut i: usize = 0;
        while i < 16
            invariant
                i <= 16,
                forall|j: int| 0 <= j < i ==> res@[j] == (self@[j] * rhs@[j]) % 65536,
                forall|j: int| i <= j < 16 ==> res@[j] == self@[j],
            decreases 16 - i,
        {
            assert(res@[i as int] == self@[i as int] && rhs@[i as int] == rhs.0[i as int]);
            let a: u16 = res.0[i];
            let b: u16 = rhs.0[i];
            res.0[i] = a.wrapping_mul(b);
            i = i + 1;
        }
        res
    }

    /// Subtract lane by lane, wrapping around.
    pub fn sub(self, rhs: Self) -> (r: Self)
        ensures
            r@.len() == 16,
            forall|i: int| 0 <= i < 16 ==> r@[i] == (self@[i] - rhs@[i] + 65536) % 65536,
    {
        let mut res = self;
        let mut i: usize = 0;
        while i < 16
            invariant
                i <= 16,
                forall|j: int| 0 <= j < i ==> res@[j] == (self@[j] - rhs@[j] + 65536) % 65536,
                forall|j: int| i <= j < 16 ==> res@[j] == self@[j],
            decreases 16 - i,
        {
            assert(res@[i as int] == self@[i as int] && rhs@[i as int] == rhs.0[i as int]);
            let a: u16 = res.0[i];
            let b: u16 = rhs.0[i];
            res.0[i] = a.wrapping_sub(b);
            i = i + 1;
        }
        res
    }

    /// Keep the low eight bits of every lane.
    pub fn narrow(self) -> (r: u8x16)
        ensures
            r@.len() == 16,
            forall|i: int| 0 <= i < 16 ==> r@[i] == self@[i] % 256,
    {
        let mut res = [0u8; 16];
        let mut i: usize = 0;
        while i < 16
            invariant
                i <= 16,
                forall|j: int| 0 <= j < i ==> res@[j] == self@[j] % 256,
            decreases 16 - i,
        {
            assert(self@[i as int] == self.0[i as int]);
            let v: u16 = self.0[i];
            let b: u8 = v as u8;
            assert(b == v % 256) by (bit_vector)
                requires
                    b == v as u8,
            ;
            res[i] = b;
            i = i + 1;
        }
        u8x16(res)
    }

    /// Divide every lane by 255 as NEON does: `(x + 255) >> 8`, the sum wrapping
    /// around.
    pub fn normalize(self) -> (r: Self)
        ensures
            r@.len() == 16,
            forall|i: int| 0 <= i < 16 ==> r@[i] == wrapping_div_255_spec(self@[i] as int),
            forall|i: int| 0 <= i < 16 && self@[i] < 65280 ==> r@[i] == div_255_spec(self@[i] as int),
    {
        let mut res = self;
        let mut i: usize = 0;
        while i < 16
            invariant
                i <= 16,
                forall|j: int| 0 <= j < i ==> res@[j] == wrapping_div_255_spec(self@[j] as int),
                forall|j: int| i <= j < 16 ==> res@[j] == self@[j],
            decreases 16 - i,
        {
            assert(res@[i as int] == self@[i as int]);
            res.0[i] = div_255(res.0[i]);
            i = i + 1;
        }
        res
    }

    /// Clamp every lane to the 8-bit range.
    pub fn clamp(self) -> (r: Self)
        ensures
            r@.len() == 16,
            forall|i: int| 0 <= i < 16 ==> r@[i] == if self@[i] <= 255 { self@[i] } else { 255 },
    {
        self.min(Self::splat(255))
    }

    /// The smaller of the two values, lane by lane.
    fn min(self, rhs: Self) -> (r: Self)
        ensures
            r@.len() == 16,
            forall|i: int| 0 <= i < 16 ==> r@[i] == if self@[i] <= rhs@[i] { self@[i] } else { rhs@[i] },
    {
        let mut res = self;
        let mut i: usize = 0;
        while i < 16
            invariant
                i <= 16,
                forall|j: int| 0 <= j < i ==> res@[j] == if self@[j] <= rhs@[j] { self@[j] } else { rhs@[j] },
                forall|j: int| i <= j < 16 ==> res@[j] == self@[j],
            decreases 16 - i,
        {
            assert(res@[i as int] == self@[i as int] && rhs@[i as int] == rhs.0[i as int]);
            if rhs.0[i] < res.0[i] {
                res.0[i] = rhs.0[i];
            }
            i = i + 1;
        }
        res
    }
}

} // verus!
