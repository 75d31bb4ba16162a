//! Thirty-two 8-bit lanes, and their thirty-two 16-bit widened counterpart,
//! each made of two halves of sixteen lanes.

use vstd::prelude::*;
use crate::div255::{
    div_255_spec, lemma_channel_product_bound, lemma_div_255_bound, normalized_mul_spec,
};
use crate::fallback::u8x16::{u16x16, u8x16};
use crate::{Base, Widened};

verus! {

broadcast use {u8x16::lemma_len, u16x16::lemma_len};

/// Thirty-two 8-bit lanes: the low sixteen, then the high sixteen.
#[derive(Copy, Clone, Debug)]
pub struct u8x32(u8x16, u8x16);

/// Thirty-two 16-bit lanes: the low sixteen, then the high sixteen.
#[derive(Copy, Clone, Debug)]
pub struct u16x32(u16x16, u16x16);

impl View for u8x32 {
    type V = Seq<u8>;

    closed spec fn view(&self) -> Seq<u8> {
        self.0@ + self.1@
    }
}

impl View for u16x32 {
    type V = Seq<u16>;

    closed spec fn view(&self) -> Seq<u16> {
        self.0@ + self.1@
    }
}

impl Base for u8x32 {}

impl Base for u16x32 {}

impl u8x32 {
    /// A vector always has thirty-two lanes.
    pub broadcast proof fn lemma_len(v: u8x32)
        ensures
            (#[trigger] v@).len() == 32,
    {
    }

    /// The vector made of the two halves `lo` and `hi`.
    pub fn from_halves(lo: u8x16, hi: u8x16) -> (r: Self)
        ensures
            r@ == lo@ + hi@,
    {
        u8x32(lo, hi)
    }

    /// Add lane by lane; no lane may overflow.
    pub fn add(self, rhs: Self) -> (r: Self)
        requires
            forall|i: int| 0 <= i < 32 ==> self@[i] + rhs@[i] <= u8::MAX,
        ensures
            r@.len() == 32,
            forall|i: int| 0 <= i < 32 ==> r@[i] == self@[i] + rhs@[i],
    {
        assert forall|i: int| 0 <= i < 16 implies self.0@[i] + rhs.0@[i] <= u8::MAX
            && self.1@[i] + rhs.1@[i] <= u8::MAX by {
            assert(self@[i] == self.0@[i] && rhs@[i] == rhs.0@[i]);
            assert(self@[i + 16] == self.1@[i] && rhs@[i + 16] == rhs.1@[i]);
        }
        let r = u8x32(self.0.add(rhs.0), self.1.add(rhs.1));
        assert forall|i: int| 0 <= i < 32 implies r@[i] == self@[i] + rhs@[i] by {
            if i >= 16 {
                assert(r@[i] == r.1@[i - 16]);
            }
        }
        r
    }

    /// Multiply lane by lane; no lane may overflow.
    pub fn mul(self, rhs: Self) -> (r: Self)
        requires
            forall|i: int| 0 <= i < 32 ==> self@[i] * rhs@[i] <= u8::MAX,
        ensures
            r@.len() == 32,
            forall|i: int| 0 <= i < 32 ==> r@[i] == self@[i] * rhs@[i],
    {
        assert forall|i: int| 0 <= i < 16 implies self.0@[i] * rhs.0@[i] <= u8::MAX
            && self.1@[i] * rhs.1@[i] <= u8::MAX by {
            assert(self@[i] == self.0@[i] && rhs@[i] == rhs.0@[i]);
            assert(self@[i + 16] == self.1@[i] && rhs@[i + 16] == rhs.1@[i]);
        }
        let r = u8x32(self.0.mul(rhs.0), self.1.mul(rhs.1));
        assert forall|i: int| 0 <= i < 32 implies r@[i] == self@[i] * rhs@[i] by {
            if i >= 16 {
                assert(r@[i] == r.1@[i - 16]);
            }
        }
        r
    }

    /// Subtract lane by lane; no lane may go below zero.
    pub fn sub(self, rhs: Self) -> (r: Self)
        requires
            forall|i: int| 0 <= i < 32 ==> self@[i] >= rhs@[i],
        ensures
            r@.len() == 32,
            forall|i: int| 0 <= i < 32 ==> r@[i] == self@[i] - rhs@[i],
    {
        assert forall|i: int| 0 <= i < 16 implies self.0@[i] >= rhs.0@[i] && self.1@[i]
            >= rhs.1@[i] by {
            assert(self@[i] == self.0@[i] && rhs@[i] == rhs.0@[i]);
            assert(self@[i + 16] == self.1@[i] && rhs@[i + 16] == rhs.1@[i]);
        }
        let r = u8x32(self.0.sub(rhs.0), self.1.sub(rhs.1));
        assert forall|i: int| 0 <= i < 32 implies r@[i] == self@[i] - rhs@[i] by {
            if i >= 16 {
                assert(r@[i] == r.1@[i - 16]);
            }
        }
        r
    }

    /// Load thirty-two lanes from a slice of exactly thirty-two values.
    pub fn load(src: &[u8]) -> (r: Self)
        requires
            src@.len() == 32,
        ensures
            r@ == src@,
    {
        let r = u8x32(u8x16::load(&src[0..16]), u8x16::load(&src[16..32]));
        assert(r@ =~= src@);
        r
    }

    /// Repeat each of the first eight values of `src` four times.
    pub fn load_alphas(src: &[u8]) -> (r: Self)
        requires
            src@.len() >= 8,
        ensures
            r@.len() == 32,
            forall|i: int| 0 <= i < 32 ==> r@[i] == src@[i / 4],
    {
        let r = u8x32(u8x16::load_alphas(&src[0..4]), u8x16::load_alphas(&src[4..8]));
        assert forall|i: int| 0 <= i < 32 implies r@[i] == src@[i / 4] by {
            if i >= 16 {
                assert(r@[i] == r.1@[i - 16]);
                assert((i - 16) / 4 + 4 == i / 4);
            }
        }
        r
    }

    /// Repeat the four values of `src` eight times.
    pub fn splat_4(src: [u8; 4]) -> (r: Self)
        ensures
            r@.len() == 32,
            forall|i: int| 0 <= i < 32 ==> r@[i] == src@[i % 4],
    {
        let splat = u8x16::splat_4(src);
        let r = u8x32(splat, splat);
        assert forall|i: int| 0 <= i < 32 implies r@[i] == src@[i % 4] by {
            if i >= 16 {
                assert(r@[i] == r.1@[i - 16]);
                assert((i - 16) % 4 == i % 4);
            }
        }
        r
    }

    /// Copy the last lane of each group of four lanes to the whole group.
    pub fn splat_4th_element(self) -> (r: Self)
        ensures
            r@.len() == 32,
            forall|i: int| 0 <= i < 32 ==> r@[i] == self@[(i / 4) * 4 + 3],
    {
        let r = u8x32(self.0.splat_4th_element(), self.1.splat_4th_element());
        assert forall|i: int| 0 <= i < 32 implies r@[i] == self@[(i / 4) * 4 + 3] by {
            if i >= 16 {
                assert(r@[i] == r.1@[i - 16]);
                assert(((i - 16) / 4) * 4 + 3 + 16 == (i / 4) * 4 + 3);
                assert(self@[(i / 4) * 4 + 3] == self.1@[((i - 16) / 4) * 4 + 3]);
            } else {
                assert(self@[(i / 4) * 4 + 3] == self.0@[(i / 4) * 4 + 3]);
            }
        }
        r
    }

    /// Set every lane to `value`.
    pub fn splat(value: u8) -> (r: Self)
        ensures
            r@.len() == 32,
            forall|i: int| 0 <= i < 32 ==> r@[i] == value,
    {
        let r = u8x32(u8x16::splat(value), u8x16::splat(value));
        assert forall|i: int| 0 <= i < 32 implies r@[i] == value by {
            if i >= 16 {
                assert(r@[i] == r.1@[i - 16]);
            }
        }
        r
    }

    /// The smaller of the two values, lane by lane.
    pub fn min(self, other: Self) -> (r: Self)
        ensures
            r@.len() == 32,
            forall|i: int|
                0 <= i < 32 ==> r@[i] == if self@[i] <= other@[i] {
                    self@[i]
                } else {
                    other@[i]
                },
    {
        let r = u8x32(self.0.min(other.0), self.1.min(other.1));
        assert forall|i: int| 0 <= i < 32 implies r@[i] == if self@[i] <= other@[i] {
            self@[i]
        } else {
            other@[i]
        } by {
            if i >= 16 {
                assert(r@[i] == r.1@[i - 16]);
            }
        }
        r
    }

    /// The larger of the two values, lane by lane.
    pub fn max(self, other: Self) -> (r: Self)
        ensures
            r@.len() == 32,
            forall|i: int|
                0 <= i < 32 ==> r@[i] == if self@[i] >= other@[i] {
                    self@[i]
                } else {
                    other@[i]
                },
    {
        let r = u8x32(self.0.max(other.0), self.1.max(other.1));
        assert forall|i: int| 0 <= i < 32 implies r@[i] == if self@[i] >= other@[i] {
            self@[i]
        } else {
            other@[i]
        } by {
            if i >= 16 {
                assert(r@[i] == r.1@[i - 16]);
            }
        }
        r
    }

    /// The vector whose every lane is the 8-bit component `value`.
    pub fn from_normalized_u8(value: u8) -> (r: Self)
        ensures
            r@.len() == 32,
            forall|i: int| 0 <= i < 32 ==> r@[i] == value,
    {
        Self::splat(value)
    }

    /// Store the thirty-two lanes into a slice of exactly thirty-two values.
    pub fn store(self, dest: &mut [u8])
        requires
            old(dest)@.len() == 32,
        ensures
            final(dest)@ == self@,
    {
        let lo = self.0.to_array();
        let hi = self.1.to_array();
        for i in 0..16
            invariant
                dest@.len() == 32,
                lo@ == self.0@,
                hi@ == self.1@,
                forall|j: int| 0 <= j < i ==> dest@[j] == self.0@[j],
                forall|j: int| 16 <= j < 16 + i ==> dest@[j] == self.1@[j - 16],
        {
            dest[i] = lo[i];
            dest[i + 16] = hi[i];
        }
        assert(dest@ =~= self@);
    }

    /// Widen every lane to 16 bits.
    pub fn widen(self) -> (r: u16x32)
        ensures
            r@.len() == 32,
            forall|i: int| 0 <= i < 32 ==> r@[i] == self@[i],
    {
        let r = u16x32(self.0.widen(), self.1.widen());
        assert forall|i: int| 0 <= i < 32 implies r@[i] == self@[i] by {
            if i >= 16 {
                assert(r@[i] == r.1@[i - 16]);
            }
        }
        r
    }
}

impl u8x32 {
    /// Every lane fully off.
    pub fn zero() -> (r: Self)
        ensures
            r@.len() == 32,
            forall|i: int| 0 <= i < 32 ==> r@[i] == 0,
    {
        Self::splat(0)
    }

    /// Every lane half on.
    pub fn mid() -> (r: Self)
        ensures
            r@.len() == 32,
            forall|i: int| 0 <= i < 32 ==> r@[i] == 127,
    {
        Self::splat(127)
    }

    /// Every lane fully on.
    pub fn one() -> (r: Self)
        ensures
            r@.len() == 32,
            forall|i: int| 0 <= i < 32 ==> r@[i] == 255,
    {
        Self::splat(255)
    }

    /// `255 - x` in every lane.
    pub fn one_minus(self) -> (r: Self)
        ensures
            r@.len() == 32,
            forall|i: int| 0 <= i < 32 ==> r@[i] == 255 - self@[i],
    {
        Self::one().sub(self)
    }

    /// Multiply lane by lane, reading each lane as a fraction of 255.
    pub fn normalized_mul(self, other: Self) -> (r: Self)
        ensures
            r@.len() == 32,
            forall|i: int|
                0 <= i < 32 ==> r@[i] == normalized_mul_spec(self@[i] as int, other@[i] as int),
    {
        let a = self.widen();
        let b = other.widen();
        assert forall|i: int| 0 <= i < 32 implies a@[i] * b@[i] <= 65025 by {
            lemma_channel_product_bound(a@[i], b@[i]);
        }
        let p = a.mul(b);
        let n = p.normalize();
        assert forall|i: int| 0 <= i < 32 implies n@[i] <= 255 by {
            lemma_div_255_bound(p@[i]);
        }
        n.narrow()
    }

    /// `self * other1 + other2`, the product normalized; no lane may overflow.
    pub fn normalized_mul_add(self, other1: Self, other2: Self) -> (r: Self)
        requires
            forall|i: int|
                0 <= i < 32 ==> normalized_mul_spec(self@[i] as int, other1@[i] as int) + other2@[i]
                    <= 255,
        ensures
            r@.len() == 32,
            forall|i: int|
                0 <= i < 32 ==> r@[i] == normalized_mul_spec(self@[i] as int, other1@[i] as int)
                    + other2@[i],
    {
        self.normalized_mul(other1).add(other2)
    }

    /// `self * other1 + other2 * other3`, normalized once; each lane's unnormalized
    /// sum must stay below 65280.
    pub fn normalized_mul_mul_add(self, other1: Self, other2: Self, other3: Self) -> (r: Self)
        requires
            forall|i: int|
                0 <= i < 32 ==> self@[i] * other1@[i] + other2@[i] * other3@[i] < 65280,
        ensures
            r@.len() == 32,
            forall|i: int|
                0 <= i < 32 ==> r@[i] == div_255_spec(
                    self@[i] * other1@[i] + other2@[i] * other3@[i],
                ),
    {
        let a = self.widen();
        let b = other1.widen();
        let c = other2.widen();
        let d = other3.widen();
        assert forall|i: int| 0 <= i < 32 implies a@[i] * b@[i] <= 65025 && c@[i] * d@[i]
            <= 65025 by {
            lemma_channel_product_bound(a@[i], b@[i]);
            lemma_channel_product_bound(c@[i], d@[i]);
        }
        let p1 = a.mul(b);
        let p2 = c.mul(d);
        let s = p1.add(p2);
        let n = s.normalize();
        assert forall|i: int| 0 <= i < 32 implies n@[i] <= 255 by {
            lemma_div_255_bound(s@[i]);
        }
        n.narrow()
    }

    /// `other2 - self * other1`, the product normalized; no lane may go below zero.
    pub fn normalized_mul_sub(self, other1: Self, other2: Self) -> (r: Self)
        requires
            forall|i: int|
                0 <= i < 32 ==> other2@[i] >= normalized_mul_spec(
                    self@[i] as int,
                    other1@[i] as int,
                ),
        ensures
            r@.len() == 32,
            forall|i: int|
                0 <= i < 32 ==> r@[i] == other2@[i] - normalized_mul_spec(
                    self@[i] as int,
                    other1@[i] as int,
                ),
    {
        other2.sub(self.normalized_mul(other1))
    }
}

impl u16x32 {
    /// A vector always has thirty-two lanes.
    pub broadcast proof fn lemma_len(v: u16x32)
        ensures
            (#[trigger] v@).len() == 32,
    {
    }

    /// The vector made of the two halves `lo` and `hi`.
    pub fn from_halves(lo: u16x16, hi: u16x16) -> (r: Self)
        ensures
            r@ == lo@ + hi@,
    {
        u16x32(lo, hi)
    }

    /// Add lane by lane; no lane may overflow.
    pub fn add(self, rhs: Self) -> (r: Self)
        requires
            forall|i: int| 0 <= i < 32 ==> self@[i] + rhs@[i] <= u16::MAX,
        ensures
            r@.len() == 32,
            forall|i: int| 0 <= i < 32 ==> r@[i] == self@[i] + rhs@[i],
    {
        assert forall|i: int| 0 <= i < 16 implies self.0@[i] + rhs.0@[i] <= u16::MAX
            && self.1@[i] + rhs.1@[i] <= u16::MAX by {
            assert(self@[i] == self.0@[i] && rhs@[i] == rhs.0@[i]);
            assert(self@[i + 16] == self.1@[i] && rhs@[i + 16] == rhs.1@[i]);
        }
        let r = u16x32(self.0.add(rhs.0), self.1.add(rhs.1));
        assert forall|i: int| 0 <= i < 32 implies r@[i] == self@[i] + rhs@[i] by {
            if i >= 16 {
                assert(r@[i] == r.1@[i - 16]);
            }
        }
        r
    }

    /// Multiply lane by lane; no lane may overflow.
    pub fn mul(self, rhs: Self) -> (r: Self)
        requires
            forall|i: int| 0 <= i < 32 ==> self@[i] * rhs@[i] <= u16::MAX,
        ensures
            r@.len() == 32,
            forall|i: int| 0 <= i < 32 ==> r@[i] == self@[i] * rhs@[i],
    {
        assert forall|i: int| 0 <= i < 16 implies self.0@[i] * rhs.0@[i] <= u16::MAX
            && self.1@[i] * rhs.1@[i] <= u16::MAX by {
            assert(self@[i] == self.0@[i] && rhs@[i] == rhs.0@[i]);
            assert(self@[i + 16] == self.1@[i] && rhs@[i + 16] == rhs.1@[i]);
        }
        let r = u16x32(self.0.mul(rhs.0), self.1.mul(rhs.1));
        assert forall|i: int| 0 <= i < 32 implies r@[i] == self@[i] * rhs@[i] by {
            if i >= 16 {
                assert(r@[i] == r.1@[i - 16]);
            }
        }
        r
    }

    /// Subtract lane by lane; no lane may go below zero.
    pub fn sub(self, rhs: Self) -> (r: Self)
        requires
            forall|i: int| 0 <= i < 32 ==> self@[i] >= rhs@[i],
        ensures
            r@.len() == 32,
            forall|i: int| 0 <= i < 32 ==> r@[i] == self@[i] - rhs@[i],
    {
        assert forall|i: int| 0 <= i < 16 implies self.0@[i] >= rhs.0@[i] && self.1@[i]
            >= rhs.1@[i] by {
            assert(self@[i] == self.0@[i] && rhs@[i] == rhs.0@[i]);
            assert(self@[i + 16] == self.1@[i] && rhs@[i + 16] == rhs.1@[i]);
        }
        let r = u16x32(self.0.sub(rhs.0), self.1.sub(rhs.1));
        assert forall|i: int| 0 <= i < 32 implies r@[i] == self@[i] - rhs@[i] by {
            if i >= 16 {
                assert(r@[i] == r.1@[i - 16]);
            }
        }
        r
    }
}

impl Widened<u8x32> for u16x32 {
    /// Keep the low eight bits of every lane.
    fn narrow(self) -> (r: u8x32)
        ensures
            r@.len() == 32,
            forall|i: int| 0 <= i < 32 ==> r@[i] == self@[i] % 256,
    {
        let r = u8x32(self.0.narrow(), self.1.narrow());
        assert forall|i: int| 0 <= i < 32 implies r@[i] == self@[i] % 256 by {
            if i >= 16 {
                assert(r@[i] == r.1@[i - 16]);
            }
        }
        r
    }

    /// Every lane is below 65280.
    open spec fn normalizable(&self) -> bool {
        forall|i: int| 0 <= i < 32 ==> self@[i] < 65280
    }

    /// Apply `div_255` to every lane.
    fn normalize(self) -> (r: Self)
        ensures
            r@.len() == 32,
            forall|i: int| 0 <= i < 32 ==> r@[i] == div_255_spec(self@[i] as int),
    {
        assert forall|i: int| 0 <= i < 16 implies self.0@[i] < 65280 && self.1@[i] < 65280 by {
            assert(self@[i] == self.0@[i]);
            assert(self@[i + 16] == self.1@[i]);
        }
        let r = u16x32(self.0.normalize(), self.1.normalize());
        assert forall|i: int| 0 <= i < 32 implies r@[i] == div_255_spec(self@[i] as int) by {
            if i >= 16 {
                assert(r@[i] == r.1@[i - 16]);
            }
        }
        r
    }
}

} // verus!
