//! Sixteen 8-bit lanes, and their sixteen 16-bit widened counterpart.

use vstd::prelude::*;
use crate::div255::{
    div_255, div_255_spec, lemma_channel_product_bound, lemma_div_255_bound, normalized_mul_spec,
};
use crate::{Base, Widened};

verus! {

/// Sixteen 8-bit lanes.
#[derive(Copy, Clone, Debug)]
pub struct u8x16([u8; 16]);

/// Sixteen 16-bit lanes.
#[derive(Copy, Clone, Debug)]
pub struct u16x16([u16; 16]);

impl View for u8x16 {
    type V = Seq<u8>;

    closed spec fn view(&self) -> Seq<u8> {
        self.0@
    }
}

impl View for u16x16 {
    type V = Seq<u16>;

    closed spec fn view(&self) -> Seq<u16> {
        self.0@
    }
}

impl Base for u8x16 {}

impl Base for u16x16 {}

impl u8x16 {
    /// A vector always has sixteen lanes.
    pub broadcast proof fn lemma_len(v: u8x16)
        ensures
            (#[trigger] v@).len() == 16,
    {
    }

    /// The vector whose lanes are `lanes`.
    pub fn from_array(lanes: [u8; 16]) -> (r: Self)
        ensures
            r@ == lanes@,
    {
        u8x16(lanes)
    }

    /// The lanes of the vector.
    pub fn to_array(self) -> (r: [u8; 16])
        ensures
            r@ == self@,
    {
        self.0
    }

    /// Add lane by lane; no lane may overflow.
    pub fn add(self, rhs: Self) -> (r: Self)
        requires
            forall|i: int| 0 <= i < 16 ==> self@[i] + rhs@[i] <= u8::MAX,
        ensures
            r@.len() == 16,
            forall|i: int| 0 <= i < 16 ==> r@[i] == self@[i] + rhs@[i],
    {
        let mut res = self;
        for i in 0..16
            invariant
                forall|j: int| 0 <= j < 16 ==> self@[j] + rhs@[j] <= u8::MAX,
                forall|j: int| 0 <= j < i ==> res@[j] == self@[j] + rhs@[j],
                forall|j: int| i <= j < 16 ==> res@[j] == self@[j],
        {
            assert(res@[i as int] == self@[i as int] && rhs@[i as int] == rhs.0[i as int]);
            res.0[i] = res.0[i] + rhs.0[i];
        }
        res
    }

    /// Multiply lane by lane; no lane may overflow.
    pub fn mul(self, rhs: Self) -> (r: Self)
        requires
            forall|i: int| 0 <= i < 16 ==> self@[i] * rhs@[i] <= u8::MAX,
        ensures
            r@.len() == 16,
            forall|i: int| 0 <= i < 16 ==> r@[i] == self@[i] * rhs@[i],
    {
        let mut res = self;
        for i in 0..16
            invariant
                forall|j: int| 0 <= j < 16 ==> self@[j] * rhs@[j] <= u8::MAX,
                forall|j: int| 0 <= j < i ==> res@[j] == self@[j] * rhs@[j],
                forall|j: int| i <= j < 16 ==> res@[j] == self@[j],
        {
            assert(res@[i as int] == self@[i as int] && rhs@[i as int] == rhs.0[i as int]);
            res.0[i] = res.0[i] * rhs.0[i];
        }
        res
    }

    /// Subtract lane by lane; no lane may go below zero.
    pub fn sub(self, rhs: Self) -> (r: Self)
        requires
            forall|i: int| 0 <= i < 16 ==> self@[i] >= rhs@[i],
        ensures
            r@.len() == 16,
            forall|i: int| 0 <= i < 16 ==> r@[i] == self@[i] - rhs@[i],
    {
        let mut res = self;
        for i in 0..16
            invariant
                forall|j: int| 0 <= j < 16 ==> self@[j] >= rhs@[j],
                forall|j: int| 0 <= j < i ==> res@[j] == self@[j] - rhs@[j],
                forall|j: int| i <= j < 16 ==> res@[j] == self@[j],
        {
            assert(res@[i as int] == self@[i as int] && rhs@[i as int] == rhs.0[i as int]);
            res.0[i] = res.0[i] - rhs.0[i];
        }
        res
    }

    /// Load sixteen lanes from a slice of exactly sixteen values.
    pub fn load(src: &[u8]) -> (r: Self)
        requires
            src@.len() == 16,
        ensures
            r@ == src@,
    {
        let mut res = [0u8; 16];
        for i in 0..16
            invariant
                src@.len() == 16,
                forall|j: int| 0 <= j < i ==> res@[j] == src@[j],
        {
            res[i] = src[i];
        }
        assert(res@ =~= src@);
        u8x16(res)
    }

    /// Repeat each of the first four values of `src` four times.
    pub fn load_alphas(src: &[u8]) -> (r: Self)
        requires
            src@.len() >= 4,
        ensures
            r@.len() == 16,
            forall|i: int| 0 <= i < 16 ==> r@[i] == src@[i / 4],
    {
        let mut res = [0u8; 16];
        for i in 0..16
            invariant
                src@.len() >= 4,
                forall|j: int| 0 <= j < i ==> res@[j] == src@[j / 4],
        {
            res[i] = src[i / 4];
        }
        u8x16(res)
    }

    /// Repeat the four values of `src` four times.
    pub fn splat_4(src: [u8; 4]) -> (r: Self)
        ensures
            r@.len() == 16,
            forall|i: int| 0 <= i < 16 ==> r@[i] == src@[i % 4],
    {
        let mut res = [0u8; 16];
        for i in 0..16
            invariant
                forall|j: int| 0 <= j < i ==> res@[j] == src@[j % 4],
        {
            res[i] = src[i % 4];
        }
        u8x16(res)
    }

    /// Copy the last lane of each group of four lanes to the whole group.
    pub fn splat_4th_element(self) -> (r: Self)
        ensures
            r@.len() == 16,
            forall|i: int| 0 <= i < 16 ==> r@[i] == self@[(i / 4) * 4 + 3],
    {
        let a = self.0;
        let r = u8x16(
            [
                a[3],
                a[3],
                a[3],
                a[3],
                a[7],
                a[7],
                a[7],
                a[7],
                a[11],
                a[11],
                a[11],
                a[11],
                a[15],
                a[15],
                a[15],
                a[15],
            ],
        );
        assert forall|i: int| 0 <= i < 16 implies r@[i] == self@[(i / 4) * 4 + 3] by {
            assert(0 <= i < 4 || 4 <= i < 8 || 8 <= i < 12 || 12 <= i < 16);
        }
        r
    }

    /// Set every lane to `value`.
    pub fn splat(value: u8) -> (r: Self)
        ensures
            r@.len() == 16,
            forall|i: int| 0 <= i < 16 ==> r@[i] == value,
    {
        u8x16([value; 16])
    }

    /// The smaller of the two values, lane by lane.
    pub fn min(self, other: Self) -> (r: Self)
        ensures
            r@.len() == 16,
            forall|i: int|
                0 <= i < 16 ==> r@[i] == if self@[i] <= other@[i] {
                    self@[i]
                } else {
                    other@[i]
                },
    {
        let mut res = self;
        for i in 0..16
            invariant
                forall|j: int|
                    0 <= j < i ==> res@[j] == if self@[j] <= other@[j] {
                        self@[j]
                    } else {
                        other@[j]
                    },
                forall|j: int| i <= j < 16 ==> res@[j] == self@[j],
        {
            assert(res@[i as int] == self@[i as int] && other@[i as int] == other.0[i as int]);
            if other.0[i] < res.0[i] {
                res.0[i] = other.0[i];
            }
        }
        res
    }

    /// The larger of the two values, lane by lane.
    pub fn max(self, other: Self) -> (r: Self)
        ensures
            r@.len() == 16,
            forall|i: int|
                0 <= i < 16 ==> r@[i] == if self@[i] >= other@[i] {
                    self@[i]
                } else {
                    other@[i]
                },
    {
        let mut res = self;
        for i in 0..16
            invariant
                forall|j: int|
                    0 <= j < i ==> res@[j] == if self@[j] >= other@[j] {
                        self@[j]
                    } else {
                        other@[j]
                    },
                forall|j: int| i <= j < 16 ==> res@[j] == self@[j],
        {
            assert(res@[i as int] == self@[i as int] && other@[i as int] == other.0[i as int]);
            if other.0[i] > res.0[i] {
                res.0[i] = other.0[i];
            }
        }
        res
    }

    /// The vector whose every lane is the 8-bit component `value`.
    pub fn from_normalized_u8(value: u8) -> (r: Self)
        ensures
            r@.len() == 16,
            forall|i: int| 0 <= i < 16 ==> r@[i] == value,
    {
        Self::splat(value)
    }

    /// Store the sixteen lanes into a slice of exactly sixteen values.
    pub fn store(self, dest: &mut [u8])
        requires
            old(dest)@.len() == 16,
        ensures
            final(dest)@ == self@,
    {
        for i in 0..16
            invariant
                dest@.len() == 16,
                forall|j: int| 0 <= j < i ==> dest@[j] == self@[j],
        {
            dest[i] = self.0[i];
        }
        assert(dest@ =~= self@);
    }

    /// Widen every lane to 16 bits.
    pub fn widen(self) -> (r: u16x16)
        ensures
            r@.len() == 16,
            forall|i: int| 0 <= i < 16 ==> r@[i] == self@[i],
    {
        let mut converted = [0u16; 16];
        for i in 0..16
            invariant
                forall|j: int| 0 <= j < i ==> converted@[j] == self@[j],
        {
            converted[i] = self.0[i] as u16;
        }
        u16x16(converted)
    }
}

impl u16x16 {
    /// A vector always has sixteen lanes.
    pub broadcast proof fn lemma_len(v: u16x16)
        ensures
            (#[trigger] v@).len() == 16,
    {
    }

    /// The vector whose lanes are `lanes`.
    pub fn from_array(lanes: [u16; 16]) -> (r: Self)
        ensures
            r@ == lanes@,
    {
        u16x16(lanes)
    }

    /// The lanes of the vector.
    pub fn to_array(self) -> (r: [u16; 16])
        ensures
            r@ == self@,
    {
        self.0
    }

    /// Add lane by lane; no lane may overflow.
    pub fn add(self, rhs: Self) -> (r: Self)
        requires
            forall|i: int| 0 <= i < 16 ==> self@[i] + rhs@[i] <= u16::MAX,
        ensures
            r@.len() == 16,
            forall|i: int| 0 <= i < 16 ==> r@[i] == self@[i] + rhs@[i],
    {
        let mut res = self;
        for i in 0..16
            invariant
                forall|j: int| 0 <= j < 16 ==> self@[j] + rhs@[j] <= u16::MAX,
                forall|j: int| 0 <= j < i ==> res@[j] == self@[j] + rhs@[j],
                forall|j: int| i <= j < 16 ==> res@[j] == self@[j],
        {
            assert(res@[i as int] == self@[i as int] && rhs@[i as int] == rhs.0[i as int]);
            res.0[i] = res.0[i] + rhs.0[i];
        }
        res
    }

    /// Multiply lane by lane; no lane may overflow.
    pub fn mul(self, rhs: Self) -> (r: Self)
        requires
            forall|i: int| 0 <= i < 16 ==> self@[i] * rhs@[i] <= u16::MAX,
        ensures
            r@.len() == 16,
            forall|i: int| 0 <= i < 16 ==> r@[i] == self@[i] * rhs@[i],
    {
        let mut res = self;
        for i in 0..16
            invariant
                forall|j: int| 0 <= j < 16 ==> self@[j] * rhs@[j] <= u16::MAX,
                forall|j: int| 0 <= j < i ==> res@[j] == self@[j] * rhs@[j],
                forall|j: int| i <= j < 16 ==> res@[j] == self@[j],
        {
            assert(res@[i as int] == self@[i as int] && rhs@[i as int] == rhs.0[i as int]);
            res.0[i] = res.0[i] * rhs.0[i];
        }
        res
    }

    /// Subtract lane by lane; no lane may go below zero.
    pub fn sub(self, rhs: Self) -> (r: Self)
        requires
            forall|i: int| 0 <= i < 16 ==> self@[i] >= rhs@[i],
        ensures
            r@.len() == 16,
            forall|i: int| 0 <= i < 16 ==> r@[i] == self@[i] - rhs@[i],
    {
        let mut res = self;
        for i in 0..16
            invariant
                forall|j: int| 0 <= j < 16 ==> self@[j] >= rhs@[j],
                forall|j: int| 0 <= j < i ==> res@[j] == self@[j] - rhs@[j],
                forall|j: int| i <= j < 16 ==> res@[j] == self@[j],
        {
            assert(res@[i as int] == self@[i as int] && rhs@[i as int] == rhs.0[i as int]);
            res.0[i] = res.0[i] - rhs.0[i];
        }
        res
    }
}

impl Widened<u8x16> for u16x16 {
    /// Keep the low eight bits of every lane.
    fn narrow(self) -> (r: u8x16)
        ensures
            r@.len() == 16,
            forall|i: int| 0 <= i < 16 ==> r@[i] == self@[i] % 256,
    {
        let mut converted = [0u8; 16];
        for i in 0..16
            invariant
                forall|j: int| 0 <= j < i ==> converted@[j] == self@[j] % 256,
        {
            let v: u16 = self.0[i];
            let b: u8 = v as u8;
            assert(b == v % 256) by (bit_vector)
                requires
                    b == v as u8,
            ;
            converted[i] = b;
        }
        u8x16(converted)
    }

    /// Every lane is below 65280.
    open spec fn normalizable(&self) -> bool {
        forall|i: int| 0 <= i < 16 ==> self@[i] < 65280
    }

    /// Apply `div_255` to every lane.
    fn normalize(self) -> (r: Self)
        ensures
            r@.len() == 16,
            forall|i: int| 0 <= i < 16 ==> r@[i] == div_255_spec(self@[i] as int),
    {
        let mut res = self;
        for i in 0..16
            invariant
                forall|j: int| 0 <= j < 16 ==> self@[j] < 65280,
                forall|j: int| 0 <= j < i ==> res@[j] == div_255_spec(self@[j] as int),
                forall|j: int| i <= j < 16 ==> res@[j] == self@[j],
        {
            assert(res@[i as int] == self@[i as int]);
            res.0[i] = div_255(res.0[i]);
        }
        res
    }
}

impl u8x16 {
    /// Every lane fully off.
    pub fn zero() -> (r: Self)
        ensures
            r@.len() == 16,
            forall|i: int| 0 <= i < 16 ==> r@[i] == 0,
    {
        Self::splat(0)
    }

    /// Every lane half on.
    pub fn mid() -> (r: Self)
        ensures
            r@.len() == 16,
            forall|i: int| 0 <= i < 16 ==> r@[i] == 127,
    {
        Self::splat(127)
    }

    /// Every lane fully on.
    pub fn one() -> (r: Self)
        ensures
            r@.len() == 16,
            forall|i: int| 0 <= i < 16 ==> r@[i] == 255,
    {
        Self::splat(255)
    }

    /// `255 - x` in every lane.
    pub fn one_minus(self) -> (r: Self)
        ensures
            r@.len() == 16,
            forall|i: int| 0 <= i < 16 ==> r@[i] == 255 - self@[i],
    {
        Self::one().sub(self)
    }

    /// Multiply lane by lane, reading each lane as a fraction of 255.
    pub fn normalized_mul(self, other: Self) -> (r: Self)
        ensures
            r@.len() == 16,
            forall|i: int|
                0 <= i < 16 ==> r@[i] == normalized_mul_spec(self@[i] as int, other@[i] as int),
    {
        let a = self.widen();
        let b = other.widen();
        assert forall|i: int| 0 <= i < 16 implies a@[i] * b@[i] <= 65025 by {
            lemma_channel_product_bound(a@[i], b@[i]);
        }
        let p = a.mul(b);
        let n = p.normalize();
        assert forall|i: int| 0 <= i < 16 implies n@[i] <= 255 by {
            lemma_div_255_bound(p@[i]);
        }
        n.narrow()
    }

    /// `self * other1 + other2`, the product normalized; no lane may overflow.
    pub fn normalized_mul_add(self, other1: Self, other2: Self) -> (r: Self)
        requires
            forall|i: int|
                0 <= i < 16 ==> normalized_mul_spec(self@[i] as int, other1@[i] as int) + other2@[i]
                    <= 255,
        ensures
            r@.len() == 16,
            forall|i: int|
                0 <= i < 16 ==> r@[i] == normalized_mul_spec(self@[i] as int, other1@[i] as int)
                    + other2@[i],
    {
        self.normalized_mul(other1).add(other2)
    }

    /// `self * other1 + other2 * other3`, normalized once; each lane's unnormalized
    /// sum must stay below 65280.
    pub fn normalized_mul_mul_add(self, other1: Self, other2: Self, other3: Self) -> (r: Self)
        requires
            forall|i: int|
                0 <= i < 16 ==> self@[i] * other1@[i] + other2@[i] * other3@[i] < 65280,
        ensures
            r@.len() == 16,
            forall|i: int|
                0 <= i < 16 ==> r@[i] == div_255_spec(
                    self@[i] * other1@[i] + other2@[i] * other3@[i],
                ),
    {
        let a = self.widen();
        let b = other1.widen();
        let c = other2.widen();
        let d = other3.widen();
        assert forall|i: int| 0 <= i < 16 implies a@[i] * b@[i] <= 65025 && c@[i] * d@[i]
            <= 65025 by {
            lemma_channel_product_bound(a@[i], b@[i]);
            lemma_channel_product_bound(c@[i], d@[i]);
        }
        let p1 = a.mul(b);
        let p2 = c.mul(d);
        let s = p1.add(p2);
        let n = s.normalize();
        assert forall|i: int| 0 <= i < 16 implies n@[i] <= 255 by {
            lemma_div_255_bound(s@[i]);
        }
        n.narrow()
    }

    /// `other2 - self * other1`, the product normalized; no lane may go below zero.
    pub fn normalized_mul_sub(self, other1: Self, other2: Self) -> (r: Self)
        requires
            forall|i: int|
                0 <= i < 16 ==> other2@[i] >= normalized_mul_spec(
                    self@[i] as int,
                    other1@[i] as int,
                ),
        ensures
            r@.len() == 16,
            forall|i: int|
                0 <= i < 16 ==> r@[i] == other2@[i] - normalized_mul_spec(
                    self@[i] as int,
                    other1@[i] as int,
                ),
    {
        other2.sub(self.normalized_mul(other1))
    }
}

} // verus!
