//! Sixty-four 8-bit lanes and sixty-four 16-bit lanes, each made of two halves.

use vstd::prelude::*;
use crate::div255::div_255_spec;
use crate::neon::u8x32::{u16x32, u8x32};
use crate::neon::wrapping_div_255_spec;

verus! {

broadcast use {u8x32::lemma_len, u16x32::lemma_len};

/// Sixty-four 8-bit lanes: the low thirty-two, then the high thirty-two.
#[derive(Copy, Clone, Debug)]
pub struct u8x64(u8x32, u8x32);

impl View for u8x64 {
    type V = Seq<u8>;

    closed spec fn view(&self) -> Seq<u8> {
        self.0@ + self.1@
    }
}

/// Sixty-four 16-bit lanes: the low thirty-two, then the high thirty-two.
#[derive(Copy, Clone, Debug)]
pub struct u16x64(u16x32, u16x32);

impl View for u16x64 {
    type V = Seq<u16>;

    closed spec fn view(&self) -> Seq<u16> {
        self.0@ + self.1@
    }
}

impl u8x64 {
    /// A vector always has 64 lanes.
    pub broadcast proof fn lemma_len(v: u8x64)
        ensures
            (#[trigger] v@).len() == 64,
    {
    }

    /// The vector made of the two halves `lo` and `hi`.
    pub fn from_halves(lo: u8x32, hi: u8x32) -> (r: Self)
        ensures
            r@ == lo@ + hi@,
    {
        u8x64(lo, hi)
    }

    /// Set every lane to `value`.
    pub fn splat(value: u8) -> (r: Self)
        ensures
            r@.len() == 64,
            forall|i: int| 0 <= i < 64 ==> r@[i] == value,
    {
        let loaded = u8x32::splat(value);
        let r = u8x64(loaded, loaded);
        assert forall|i: int| 0 <= i < 64 implies r@[i] == value by {
            if i >= 32 {
                assert(r@[i] == r.1@[i - 32]);
            }
        }
        r
    }

    /// Add lane by lane, wrapping around.
    pub fn add(self, rhs: Self) -> (r: Self)
        ensures
            r@.len() == 64,
            forall|i: int| 0 <= i < 64 ==> r@[i] == (self@[i] + rhs@[i]) % 256,
    {
        let r = Self(self.0.add(rhs.0), self.1.add(rhs.1));
        assert forall|i: int| 0 <= i < 64 implies r@[i] == (self@[i] + rhs@[i]) % 256 by {
            if i >= 32 {
                assert(r@[i] == r.1@[i - 32]);
                assert(self@[i] == self.1@[i - 32] && rhs@[i] == rhs.1@[i - 32]);
            } else {
                assert(self@[i] == self.0@[i] && rhs@[i] == rhs.0@[i]);
            }
        }
        r
    }

    /// Multiply lane by lane, wrapping around.
    pub fn mul(self, rhs: Self) -> (r: Self)
        ensures
            r@.len() == 64,
            forall|i: int| 0 <= i < 64 ==> r@[i] == (self@[i] * rhs@[i]) % 256,
    {
        let r = Self(self.0.mul(rhs.0), self.1.mul(rhs.1));
        assert forall|i: int| 0 <= i < 64 implies r@[i] == (self@[i] * rhs@[i]) % 256 by {
            if i >= 32 {
                assert(r@[i] == r.1@[i - 32]);
                assert(self@[i] == self.1@[i - 32] && rhs@[i] == rhs.1@[i - 32]);
            } else {
                assert(self@[i] == self.0@[i] && rhs@[i] == rhs.0@[i]);
            }
        }
        r
    }

    /// Subtract lane by lane, wrapping around.
    pub fn sub(self, rhs: Self) -> (r: Self)
        ensures
            r@.len() == 64,
            forall|i: int| 0 <= i < 64 ==> r@[i] == (self@[i] - rhs@[i] + 256) % 256,
    {
        let r = Self(self.0.sub(rhs.0), self.1.sub(rhs.1));
        assert forall|i: int| 0 <= i < 64 implies r@[i] == (self@[i] - rhs@[i] + 256) % 256 by {
            if i >= 32 {
                assert(r@[i] == r.1@[i - 32]);
                assert(self@[i] == self.1@[i - 32] && rhs@[i] == rhs.1@[i - 32]);
            } else {
                assert(self@[i] == self.0@[i] && rhs@[i] == rhs.0@[i]);
            }
        }
        r
    }

    /// The smaller of the two values, lane by lane.
    pub fn min(self, rhs: Self) -> (r: Self)
        ensures
            r@.len() == 64,
            forall|i: int| 0 <= i < 64 ==> r@[i] == if self@[i] <= rhs@[i] { self@[i] } else { rhs@[i] },
    {
        let r = Self(self.0.min(rhs.0), self.1.min(rhs.1));
        assert forall|i: int| 0 <= i < 64 implies r@[i] == if self@[i] <= rhs@[i] { self@[i] } else { rhs@[i] } by {
            if i >= 32 {
                assert(r@[i] == r.1@[i - 32]);
                assert(self@[i] == self.1@[i - 32] && rhs@[i] == rhs.1@[i - 32]);
            } else {
                assert(self@[i] == self.0@[i] && rhs@[i] == rhs.0@[i]);
            }
        }
        r
    }

    /// The larger of the two values, lane by lane.
    pub fn max(self, rhs: Self) -> (r: Self)
        ensures
            r@.len() == 64,
            forall|i: int| 0 <= i < 64 ==> r@[i] == if self@[i] >= rhs@[i] { self@[i] } else { rhs@[i] },
    {
        let r = Self(self.0.max(rhs.0), self.1.max(rhs.1));
        assert forall|i: int| 0 <= i < 64 implies r@[i] == if self@[i] >= rhs@[i] { self@[i] } else { rhs@[i] } by {
            if i >= 32 {
                assert(r@[i] == r.1@[i - 32]);
                assert(self@[i] == self.1@[i - 32] && rhs@[i] == rhs.1@[i - 32]);
            } else {
                assert(self@[i] == self.0@[i] && rhs@[i] == rhs.0@[i]);
            }
        }
        r
    }

    /// Load 64 lanes from a slice of exactly 64 values.
    pub fn load(src: &[u8]) -> (r: Self)
        requires
            src@.len() == 64,
        ensures
            r@ == src@,
    {
        let r = u8x64(u8x32::load(&src[0..32]), u8x32::load(&src[32..64]));
        assert(r@ =~= src@);
        r
    }

    /// Repeat the four values of `src` over all lanes.
    pub fn splat_4(src: [u8; 4]) -> (r: Self)
        ensures
            r@.len() == 64,
            forall|i: int| 0 <= i < 64 ==> r@[i] == src@[i % 4],
    {
        let loaded = u8x32::splat_4(src);
        let r = Self(loaded, loaded);
        assert forall|i: int| 0 <= i < 64 implies r@[i] == src@[i % 4] by {
            if i >= 32 {
                assert(r@[i] == r.1@[i - 32]);
                assert((i - 32) % 4 == i % 4);
            }
        }
        r
    }

    /// The vector whose every lane is the 8-bit component `value`.
    pub fn from_normalized_u8(value: u8) -> (r: Self)
        ensures
            r@.len() == 64,
            forall|i: int| 0 <= i < 64 ==> r@[i] == value,
    {
        Self::splat(value)
    }

    /// Copy the last lane of each group of four lanes to the whole group.
    pub fn splat_4th_element(self) -> (r: Self)
        ensures
            r@.len() == 64,
            forall|i: int| 0 <= i < 64 ==> r@[i] == self@[(i / 4) * 4 + 3],
    {
        let r = Self(self.0.splat_4th_element(), self.1.splat_4th_element());
        assert forall|i: int| 0 <= i < 64 implies r@[i] == self@[(i / 4) * 4 + 3] by {
            if i >= 32 {
                assert(r@[i] == r.1@[i - 32]);
                assert(((i - 32) / 4) * 4 + 3 + 32 == (i / 4) * 4 + 3);
                assert(self@[(i / 4) * 4 + 3] == self.1@[((i - 32) / 4) * 4 + 3]);
            } else {
                assert(self@[(i / 4) * 4 + 3] == self.0@[(i / 4) * 4 + 3]);
            }
        }
        r
    }

    /// Widen every lane to 16 bits.
    pub fn widen(self) -> (r: u16x64)
        ensures
            r@.len() == 64,
            forall|i: int| 0 <= i < 64 ==> r@[i] == self@[i],
    {
        let r = u16x64(self.0.widen(), self.1.widen());
        assert forall|i: int| 0 <= i < 64 implies r@[i] == self@[i] by {
            if i >= 32 {
                assert(r@[i] == r.1@[i - 32]);
                assert(self@[i] == self.1@[i - 32]);

            } else {
                assert(self@[i] == self.0@[i]);
            }
        }
        r
    }

    /// Repeat each of the sixteen values of `src` four times.
    pub fn load_alphas(src: &[u8]) -> (r: Self)
        requires
            src@.len() == 16,
        ensures
            r@.len() == 64,
            forall|i: int| 0 <= i < 64 ==> r@[i] == src@[i / 4],
    {
        let mut lo = [0u8; 32];
        let mut hi = [0u8; 32];
        let mut i: usize = 0;
        while i < 32
            invariant
                src@.len() == 16,
                i <= 32,
                forall|j: int| 0 <= j < i ==> lo@[j] == src@[j / 4] && hi@[j] == src@[(j + 32) / 4],
            decreases 32 - i,
        {
            lo[i] = src[i / 4];
            hi[i] = src[(i + 32) / 4];
            i = i + 1;
        }
        let a = u8x32::load(&lo);
        let b = u8x32::load(&hi);
        let r = u8x64(a, b);
        assert forall|i: int| 0 <= i < 64 implies r@[i] == src@[i / 4] by {
            if i >= 32 {
                assert(r@[i] == r.1@[i - 32]);
                assert(hi@[i - 32] == src@[((i - 32) + 32) / 4]);
            } else {
                assert(lo@[i] == src@[i / 4]);
            }
        }
        r
    }

    /// Store the sixty-four lanes into a slice of exactly sixty-four values.
    pub fn store(self, dest: &mut [u8])
        requires
            old(dest)@.len() == 64,
        ensures
            final(dest)@ == self@,
    {
        let a = self.0.to_array();
        let b = self.1.to_array();
        let mut i: usize = 0;
        while i < 32
            invariant
                dest@.len() == 64,
                i <= 32,
                a@ == self.0@,
                b@ == self.1@,
                forall|j: int| 0 <= j < i ==> dest@[j] == self.0@[j],
                forall|j: int| 32 <= j < 32 + i ==> dest@[j] == self.1@[j - 32],
            decreases 32 - i,
        {
            dest[i] = a[i];
            dest[i + 32] = b[i];
            i = i + 1;
        }
        assert(dest@ =~= self@);
    }

    /// Multiply lane by lane, reading each lane as a fraction of 255.
    pub fn normalized_mul(self, other: Self) -> (r: Self)
        ensures
            r@.len() == 64,
            forall|i: int| 0 <= i < 64 ==> r@[i] == div_255_spec(self@[i] * other@[i]),
    {
        let first = self.0.normalized_mul(other.0);
        let second = self.1.normalized_mul(other.1);
        let w = u16x64(first, second);
        let r = w.narrow();
        assert forall|i: int| 0 <= i < 64 implies r@[i] == div_255_spec(self@[i] * other@[i]) by {
            if i >= 32 {
                assert(w@[i] == second@[i - 32]);
                assert(self@[i] == self.1@[i - 32] && other@[i] == other.1@[i - 32]);
            } else {
                assert(w@[i] == first@[i]);
                assert(self@[i] == self.0@[i] && other@[i] == other.0@[i]);
            }
            crate::div255::lemma_channel_product_bound(self@[i] as u16, other@[i] as u16);
            crate::div255::lemma_div_255_bound((self@[i] * other@[i]) as u16);
        }
        r
    }

    /// `self * other1 + other2`, the product normalized, wrapping around.
    pub fn normalized_mul_add(self, other1: Self, other2: Self) -> (r: Self)
        ensures
            r@.len() == 64,
            forall|i: int|
                0 <= i < 64 ==> r@[i] == (div_255_spec(self@[i] * other1@[i]) + other2@[i]) % 256,
    {
        self.normalized_mul(other1).add(other2)
    }

    /// `other2 - self * other1`, the product normalized, wrapping around.
    pub fn normalized_mul_sub(self, other1: Self, other2: Self) -> (r: Self)
        ensures
            r@.len() == 64,
            forall|i: int|
                0 <= i < 64 ==> r@[i] == (other2@[i] - div_255_spec(self@[i] * other1@[i]) + 256)
                    % 256,
    {
        other2.sub(self.normalized_mul(other1))
    }
}

impl u16x64 {
    /// A vector always has 64 lanes.
    pub broadcast proof fn lemma_len(v: u16x64)
        ensures
            (#[trigger] v@).len() == 64,
    {
    }

    /// The vector made of the two halves `lo` and `hi`.
    pub fn from_halves(lo: u16x32, hi: u16x32) -> (r: Self)
        ensures
            r@ == lo@ + hi@,
    {
        u16x64(lo, hi)
    }

    /// Set every lane to `value`.
    pub fn splat(value: u16) -> (r: Self)
        ensures
            r@.len() == 64,
            forall|i: int| 0 <= i < 64 ==> r@[i] == value,
    {
        let loaded = u16x32::splat(value);
        let r = u16x64(loaded, loaded);
        assert forall|i: int| 0 <= i < 64 implies r@[i] == value by {
            if i >= 32 {
                assert(r@[i] == r.1@[i - 32]);
            }
        }
        r
    }

    /// Add lane by lane, wrapping around.
    pub fn add(self, rhs: Self) -> (r: Self)
        ensures
            r@.len() == 64,
            forall|i: int| 0 <= i < 64 ==> r@[i] == (self@[i] + rhs@[i]) % 65536,
    {
        let r = Self(self.0.add(rhs.0), self.1.add(rhs.1));
        assert forall|i: int| 0 <= i < 64 implies r@[i] == (self@[i] + rhs@[i]) % 65536 by {
            if i >= 32 {
                assert(r@[i] == r.1@[i - 32]);
                assert(self@[i] == self.1@[i - 32] && rhs@[i] == rhs.1@[i - 32]);
            } else {
                assert(self@[i] == self.0@[i] && rhs@[i] == rhs.0@[i]);
            }
        }
        r
    }

    /// Multiply lane by lane, wrapping around.
    pub fn mul(self, rhs: Self) -> (r: Self)
        ensures
            r@.len() == 64,
            forall|i: int| 0 <= i < 64 ==> r@[i] == (self@[i] * rhs@[i]) % 65536,
    {
        let r = Self(self.0.mul(rhs.0), self.1.mul(rhs.1));
        assert forall|i: int| 0 <= i < 64 implies r@[i] == (self@[i] * rhs@[i]) % 65536 by {
            if i >= 32 {
                assert(r@[i] == r.1@[i - 32]);
                assert(self@[i] == self.1@[i - 32] && rhs@[i] == rhs.1@[i - 32]);
            } else {
                assert(self@[i] == self.0@[i] && rhs@[i] == rhs.0@[i]);
            }
        }
        r
    }

    /// Subtract lane by lane, wrapping around.
    pub fn sub(self, rhs: Self) -> (r: Self)
        ensures
            r@.len() == 64,
            forall|i: int| 0 <= i < 64 ==> r@[i] == (self@[i] - rhs@[i] + 65536) % 65536,
    {
        let r = Self(self.0.sub(rhs.0), self.1.sub(rhs.1));
        assert forall|i: int| 0 <= i < 64 implies r@[i] == (self@[i] - rhs@[i] + 65536) % 65536 by {
            if i >= 32 {
                assert(r@[i] == r.1@[i - 32]);
                assert(self@[i] == self.1@[i - 32] && rhs@[i] == rhs.1@[i - 32]);
            } else {
                assert(self@[i] == self.0@[i] && rhs@[i] == rhs.0@[i]);
            }
        }
        r
    }

    /// Keep the low eight bits of every lane.
    pub fn narrow(self) -> (r: u8x64)
        ensures
            r@.len() == 64,
            forall|i: int| 0 <= i < 64 ==> r@[i] == self@[i] % 256,
    {
        let r = u8x64(self.0.narrow(), self.1.narrow());
        assert forall|i: int| 0 <= i < 64 implies r@[i] == self@[i] % 256 by {
            if i >= 32 {
                assert(r@[i] == r.1@[i - 32]);
                assert(self@[i] == self.1@[i - 32]);

            } else {
                assert(self@[i] == self.0@[i]);
            }
        }
        r
    }

    /// Divide every lane by 255 as NEON does: `(x + 255) >> 8`, the sum wrapping
    /// around.
    pub fn normalize(self) -> (r: Self)
        ensures
            r@.len() == 64,
            forall|i: int| 0 <= i < 64 ==> r@[i] == wrapping_div_255_spec(self@[i] as int),
    {
        let r = Self(self.0.normalize(), self.1.normalize());
        assert forall|i: int| 0 <= i < 64 implies r@[i] == wrapping_div_255_spec(self@[i] as int) by {
            if i >= 32 {
                assert(r@[i] == r.1@[i - 32]);
                assert(self@[i] == self.1@[i - 32]);

            } else {
                assert(self@[i] == self.0@[i]);
            }
        }
        r
    }
}

} // verus!
