//! Thirty-two 8-bit lanes and thirty-two 16-bit lanes, each made of two halves.

use vstd::prelude::*;
use crate::div255::div_255_spec;
use crate::neon::u8x16::{u16x16, u8x16};
use crate::neon::wrapping_div_255_spec;

verus! {

broadcast use {u8x16::lemma_len, u16x16::lemma_len};

/// Thirty-two 8-bit lanes: the low sixteen, then the high sixteen.
#[derive(Copy, Clone, Debug)]
pub struct u8x32(u8x16, u8x16);

impl View for u8x32 {
    type V = Seq<u8>;

    closed spec fn view(&self) -> Seq<u8> {
        self.0@ + self.1@
    }
}

/// Thirty-two 16-bit lanes: the low sixteen, then the high sixteen.
#[derive(Copy, Clone, Debug)]
pub struct u16x32(u16x16, u16x16);

impl View for u16x32 {
    type V = Seq<u16>;

    closed spec fn view(&self) -> Seq<u16> {
        self.0@ + self.1@
    }
}

impl u8x32 {
    /// A vector always has 32 lanes.
    pub broadcast proof fn lemma_len(v: u8x32)
        ensures
            (#[trigger] v@).len() == 32,
    {
    }

    /// The vector made of the two halves `lo` and `hi`.
    pub fn from_halves(lo: u8x16, hi: u8x16) -> (r: Self)
        ensures
            r@ == lo@ + hi@,
    {
        u8x32(lo, hi)
    }

    /// Set every lane to `value`.
    pub fn splat(value: u8) -> (r: Self)
        ensures
            r@.len() == 32,
            forall|i: int| 0 <= i < 32 ==> r@[i] == value,
    {
        let loaded = u8x16::splat(value);
        let r = u8x32(loaded, loaded);
        assert forall|i: int| 0 <= i < 32 implies r@[i] == value by {
            if i >= 16 {
                assert(r@[i] == r.1@[i - 16]);
            }
        }
        r
    }

    /// Add lane by lane, wrapping around.
    pub fn add(self, rhs: Self) -> (r: Self)
        ensures
            r@.len() == 32,
            forall|i: int| 0 <= i < 32 ==> r@[i] == (self@[i] + rhs@[i]) % 256,
    {
        let r = Self(self.0.add(rhs.0), self.1.add(rhs.1));
        assert forall|i: int| 0 <= i < 32 implies r@[i] == (self@[i] + rhs@[i]) % 256 by {
            if i >= 16 {
                assert(r@[i] == r.1@[i - 16]);
                assert(self@[i] == self.1@[i - 16] && rhs@[i] == rhs.1@[i - 16]);
            } else {
                assert(self@[i] == self.0@[i] && rhs@[i] == rhs.0@[i]);
            }
        }
        r
    }

    /// Multiply lane by lane, wrapping around.
    pub fn mul(self, rhs: Self) -> (r: Self)
        ensures
            r@.len() == 32,
            forall|i: int| 0 <= i < 32 ==> r@[i] == (self@[i] * rhs@[i]) % 256,
    {
        let r = Self(self.0.mul(rhs.0), self.1.mul(rhs.1));
        assert forall|i: int| 0 <= i < 32 implies r@[i] == (self@[i] * rhs@[i]) % 256 by {
            if i >= 16 {
                assert(r@[i] == r.1@[i - 16]);
                assert(self@[i] == self.1@[i - 16] && rhs@[i] == rhs.1@[i - 16]);
            } else {
                assert(self@[i] == self.0@[i] && rhs@[i] == rhs.0@[i]);
            }
        }
        r
    }

    /// Subtract lane by lane, wrapping around.
    pub fn sub(self, rhs: Self) -> (r: Self)
        ensures
            r@.len() == 32,
            forall|i: int| 0 <= i < 32 ==> r@[i] == (self@[i] - rhs@[i] + 256) % 256,
    {
        let r = Self(self.0.sub(rhs.0), self.1.sub(rhs.1));
        assert forall|i: int| 0 <= i < 32 implies r@[i] == (self@[i] - rhs@[i] + 256) % 256 by {
            if i >= 16 {
                assert(r@[i] == r.1@[i - 16]);
                assert(self@[i] == self.1@[i - 16] && rhs@[i] == rhs.1@[i - 16]);
            } else {
                assert(self@[i] == self.0@[i] && rhs@[i] == rhs.0@[i]);
            }
        }
        r
    }

    /// The smaller of the two values, lane by lane.
    pub fn min(self, rhs: Self) -> (r: Self)
        ensures
            r@.len() == 32,
            forall|i: int| 0 <= i < 32 ==> r@[i] == if self@[i] <= rhs@[i] { self@[i] } else { rhs@[i] },
    {
        let r = Self(self.0.min(rhs.0), self.1.min(rhs.1));
        assert forall|i: int| 0 <= i < 32 implies r@[i] == if self@[i] <= rhs@[i] { self@[i] } else { rhs@[i] } by {
            if i >= 16 {
                assert(r@[i] == r.1@[i - 16]);
                assert(self@[i] == self.1@[i - 16] && rhs@[i] == rhs.1@[i - 16]);
            } else {
                assert(self@[i] == self.0@[i] && rhs@[i] == rhs.0@[i]);
            }
        }
        r
    }

    /// The larger of the two values, lane by lane.
    pub fn max(self, rhs: Self) -> (r: Self)
        ensures
            r@.len() == 32,
            forall|i: int| 0 <= i < 32 ==> r@[i] == if self@[i] >= rhs@[i] { self@[i] } else { rhs@[i] },
    {
        let r = Self(self.0.max(rhs.0), self.1.max(rhs.1));
        assert forall|i: int| 0 <= i < 32 implies r@[i] == if self@[i] >= rhs@[i] { self@[i] } else { rhs@[i] } by {
            if i >= 16 {
                assert(r@[i] == r.1@[i - 16]);
                assert(self@[i] == self.1@[i - 16] && rhs@[i] == rhs.1@[i - 16]);
            } else {
                assert(self@[i] == self.0@[i] && rhs@[i] == rhs.0@[i]);
            }
        }
        r
    }

    /// Load 32 lanes from a slice of exactly 32 values.
    pub fn load(src: &[u8]) -> (r: Self)
        requires
            src@.len() == 32,
        ensures
            r@ == src@,
    {
        let r = u8x32(u8x16::load(&src[0..16]), u8x16::load(&src[16..32]));
        assert(r@ =~= src@);
        r
    }

    /// The lanes of the vector.
    pub fn to_array(self) -> (r: [u8; 32])
        ensures
            r@ == self@,
    {
        let lo = self.0.to_array();
        let hi = self.1.to_array();
        let mut r = [0u8; 32];
        let mut i: usize = 0;
        while i < 16
            invariant
                i <= 16,
                lo@ == self.0@,
                hi@ == self.1@,
                forall|j: int| 0 <= j < i ==> r@[j] == lo@[j] && r@[j + 16] == hi@[j],
            decreases 16 - i,
        {
            r[i] = lo[i];
            r[i + 16] = hi[i];
            i = i + 1;
        }
        assert forall|j: int| 0 <= j < 32 implies r@[j] == self@[j] by {
            if j >= 16 {
                assert(r@[(j - 16) + 16] == hi@[j - 16]);
            }
        }
        assert(r@ =~= self@);
        r
    }

    /// Repeat the four values of `src` over all lanes.
    pub fn splat_4(src: [u8; 4]) -> (r: Self)
        ensures
            r@.len() == 32,
            forall|i: int| 0 <= i < 32 ==> r@[i] == src@[i % 4],
    {
        let loaded = u8x16::splat_4(src);
        let r = Self(loaded, loaded);
        assert forall|i: int| 0 <= i < 32 implies r@[i] == src@[i % 4] by {
            if i >= 16 {
                assert(r@[i] == r.1@[i - 16]);
                assert((i - 16) % 4 == i % 4);
            }
        }
        r
    }

    /// The vector whose every lane is the 8-bit component `value`.
    pub fn from_normalized_u8(value: u8) -> (r: Self)
        ensures
            r@.len() == 32,
            forall|i: int| 0 <= i < 32 ==> r@[i] == value,
    {
        Self::splat(value)
    }

    /// Copy the last lane of each group of four lanes to the whole group.
    pub fn splat_4th_element(self) -> (r: Self)
        ensures
            r@.len() == 32,
            forall|i: int| 0 <= i < 32 ==> r@[i] == self@[(i / 4) * 4 + 3],
    {
        let r = Self(self.0.splat_4th_element(), self.1.splat_4th_element());
        assert forall|i: int| 0 <= i < 32 implies r@[i] == self@[(i / 4) * 4 + 3] by {
            if i >= 16 {
                assert(r@[i] == r.1@[i - 16]);
                assert(((i - 16) / 4) * 4 + 3 + 16 == (i / 4) * 4 + 3);
                assert(self@[(i / 4) * 4 + 3] == self.1@[((i - 16) / 4) * 4 + 3]);
            } else {
                assert(self@[(i / 4) * 4 + 3] == self.0@[(i / 4) * 4 + 3]);
            }
        }
        r
    }

    /// Widen every lane to 16 bits.
    pub fn widen(self) -> (r: u16x32)
        ensures
            r@.len() == 32,
            forall|i: int| 0 <= i < 32 ==> r@[i] == self@[i],
    {
        let r = u16x32(self.0.widen(), self.1.widen());
        assert forall|i: int| 0 <= i < 32 implies r@[i] == self@[i] by {
            if i >= 16 {
                assert(r@[i] == r.1@[i - 16]);
                assert(self@[i] == self.1@[i - 16]);

            } else {
                assert(self@[i] == self.0@[i]);
            }
        }
        r
    }

    /// Multiply lane by lane into 16-bit lanes and divide each product by 255 with
    /// `div_255`.
    pub fn normalized_mul(self, other: Self) -> (r: u16x32)
        ensures
            r@.len() == 32,
            forall|i: int| 0 <= i < 32 ==> r@[i] == div_255_spec(self@[i] * other@[i]),
    {
        let r = u16x32(self.0.normalized_widening_mul(other.0), self.1.normalized_widening_mul(other.1));
        assert forall|i: int| 0 <= i < 32 implies r@[i] == div_255_spec(self@[i] * other@[i]) by {
            if i >= 16 {
                assert(r@[i] == r.1@[i - 16]);
                assert(self@[i] == self.1@[i - 16] && other@[i] == other.1@[i - 16]);
            } else {
                assert(self@[i] == self.0@[i] && other@[i] == other.0@[i]);
            }
        }
        r
    }
}

impl u16x32 {
    /// A vector always has 32 lanes.
    pub broadcast proof fn lemma_len(v: u16x32)
        ensures
            (#[trigger] v@).len() == 32,
    {
    }

    /// The vector made of the two halves `lo` and `hi`.
    pub fn from_halves(lo: u16x16, hi: u16x16) -> (r: Self)
        ensures
            r@ == lo@ + hi@,
    {
        u16x32(lo, hi)
    }

    /// Set every lane to `value`.
    pub fn splat(value: u16) -> (r: Self)
        ensures
            r@.len() == 32,
            forall|i: int| 0 <= i < 32 ==> r@[i] == value,
    {
        let loaded = u16x16::splat(value);
        let r = u16x32(loaded, loaded);
        assert forall|i: int| 0 <= i < 32 implies r@[i] == value by {
            if i >= 16 {
                assert(r@[i] == r.1@[i - 16]);
            }
        }
        r
    }

    /// Add lane by lane, wrapping around.
    pub fn add(self, rhs: Self) -> (r: Self)
        ensures
            r@.len() == 32,
            forall|i: int| 0 <= i < 32 ==> r@[i] == (self@[i] + rhs@[i]) % 65536,
    {
        let r = Self(self.0.add(rhs.0), self.1.add(rhs.1));
        assert forall|i: int| 0 <= i < 32 implies r@[i] == (self@[i] + rhs@[i]) % 65536 by {
            if i >= 16 {
                assert(r@[i] == r.1@[i - 16]);
                assert(self@[i] == self.1@[i - 16] && rhs@[i] == rhs.1@[i - 16]);
            } else {
                assert(self@[i] == self.0@[i] && rhs@[i] == rhs.0@[i]);
            }
        }
        r
    }

    /// Multiply lane by lane, wrapping around.
    pub fn mul(self, rhs: Self) -> (r: Self)
        ensures
            r@.len() == 32,
            forall|i: int| 0 <= i < 32 ==> r@[i] == (self@[i] * rhs@[i]) % 65536,
    {
        let r = Self(self.0.mul(rhs.0), self.1.mul(rhs.1));
        assert forall|i: int| 0 <= i < 32 implies r@[i] == (self@[i] * rhs@[i]) % 65536 by {
            if i >= 16 {
                assert(r@[i] == r.1@[i - 16]);
                assert(self@[i] == self.1@[i - 16] && rhs@[i] == rhs.1@[i - 16]);
            } else {
                assert(self@[i] == self.0@[i] && rhs@[i] == rhs.0@[i]);
            }
        }
        r
    }

    /// Subtract lane by lane, wrapping around.
    pub fn sub(self, rhs: Self) -> (r: Self)
        ensures
            r@.len() == 32,
            forall|i: int| 0 <= i < 32 ==> r@[i] == (self@[i] - rhs@[i] + 65536) % 65536,
    {
        let r = Self(self.0.sub(rhs.0), self.1.sub(rhs.1));
        assert forall|i: int| 0 <= i < 32 implies r@[i] == (self@[i] - rhs@[i] + 65536) % 65536 by {
            if i >= 16 {
                assert(r@[i] == r.1@[i - 16]);
                assert(self@[i] == self.1@[i - 16] && rhs@[i] == rhs.1@[i - 16]);
            } else {
                assert(self@[i] == self.0@[i] && rhs@[i] == rhs.0@[i]);
            }
        }
        r
    }

    /// Keep the low eight bits of every lane.
    pub fn narrow(self) -> (r: u8x32)
        ensures
            r@.len() == 32,
            forall|i: int| 0 <= i < 32 ==> r@[i] == self@[i] % 256,
    {
        let r = u8x32(self.0.narrow(), self.1.narrow());
        assert forall|i: int| 0 <= i < 32 implies r@[i] == self@[i] % 256 by {
            if i >= 16 {
                assert(r@[i] == r.1@[i - 16]);
                assert(self@[i] == self.1@[i - 16]);

            } else {
                assert(self@[i] == self.0@[i]);
            }
        }
        r
    }

    /// Divide every lane by 255 as NEON does: `(x + 255) >> 8`, the sum wrapping
    /// around.
    pub fn normalize(self) -> (r: Self)
        ensures
            r@.len() == 32,
            forall|i: int| 0 <= i < 32 ==> r@[i] == wrapping_div_255_spec(self@[i] as int),
    {
        let r = Self(self.0.normalize(), self.1.normalize());
        assert forall|i: int| 0 <= i < 32 implies r@[i] == wrapping_div_255_spec(self@[i] as int) by {
            if i >= 16 {
                assert(r@[i] == r.1@[i - 16]);
                assert(self@[i] == self.1@[i - 16]);

            } else {
                assert(self@[i] == self.0@[i]);
            }
        }
        r
    }

    /// Clamp every lane to the 8-bit range.
    pub fn clamp(self) -> (r: Self)
        ensures
            r@.len() == 32,
            forall|i: int| 0 <= i < 32 ==> r@[i] == if self@[i] <= 255 { self@[i] } else { 255 },
    {
        let r = Self(self.0.clamp(), self.1.clamp());
        assert forall|i: int| 0 <= i < 32 implies r@[i] == if self@[i] <= 255 { self@[i] } else { 255 } by {
            if i >= 16 {
                assert(r@[i] == r.1@[i - 16]);
                assert(self@[i] == self.1@[i - 16]);

            } else {
                assert(self@[i] == self.0@[i]);
            }
        }
        r
    }
}

} // verus!
