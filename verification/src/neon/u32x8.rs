//! Eight 32-bit lanes, made of two halves of four.

use vstd::prelude::*;
use crate::neon::u32x4::u32x4;

verus! {

broadcast use u32x4::lemma_len;

/// 8 32-bit lanes: the low 4, then the high 4.
#[derive(Copy, Clone, Debug)]
pub struct u32x8(u32x4, u32x4);

impl View for u32x8 {
    type V = Seq<u32>;

    closed spec fn view(&self) -> Seq<u32> {
        self.0@ + self.1@
    }
}

impl u32x8 {
    /// A vector always has 8 lanes.
    pub broadcast proof fn lemma_len(v: u32x8)
        ensures
            (#[trigger] v@).len() == 8,
    {
    }

    /// The vector made of the two halves `lo` and `hi`.
    pub fn from_halves(lo: u32x4, hi: u32x4) -> (r: Self)
        ensures
            r@ == lo@ + hi@,
    {
        u32x8(lo, hi)
    }

    /// Set every lane to `value`.
    pub fn splat(value: u32) -> (r: Self)
        ensures
            r@.len() == 8,
            forall|i: int| 0 <= i < 8 ==> r@[i] == value,
    {
        let loaded = u32x4::splat(value);
        let r = u32x8(loaded, loaded);
        assert forall|i: int| 0 <= i < 8 implies r@[i] == value by {
            if i >= 4 {
                assert(r@[i] == r.1@[i - 4]);
            }
        }
        r
    }

    /// Add lane by lane, wrapping around.
    pub fn add(self, rhs: Self) -> (r: Self)
        ensures
            r@.len() == 8,
            forall|i: int| 0 <= i < 8 ==> r@[i] == (self@[i] + rhs@[i]) % 4294967296,
    {
        let r = Self(self.0.add(rhs.0), self.1.add(rhs.1));
        assert forall|i: int| 0 <= i < 8 implies r@[i] == (self@[i] + rhs@[i]) % 4294967296 by {
            if i >= 4 {
                assert(r@[i] == r.1@[i - 4]);
                assert(self@[i] == self.1@[i - 4] && rhs@[i] == rhs.1@[i - 4]);
            } else {
                assert(self@[i] == self.0@[i] && rhs@[i] == rhs.0@[i]);
            }
        }
        r
    }

    /// Store the 8 lanes into a slice of exactly 8 values.
    pub fn store(self, storage: &mut [u32])
        requires
            old(storage)@.len() == 8,
        ensures
            final(storage)@ == self@,
    {
        let mut lo = [0u32; 4];
        let mut hi = [0u32; 4];
        self.0.store(&mut lo);
        self.1.store(&mut hi);
        let mut i: usize = 0;
        while i < 4
            invariant
                storage@.len() == 8,
                i <= 4,
                lo@ == self.0@,
                hi@ == self.1@,
                forall|j: int| 0 <= j < i ==> storage@[j] == self.0@[j],
                forall|j: int| 4 <= j < 4 + i ==> storage@[j] == self.1@[j - 4],
            decreases 4 - i,
        {
            storage[i] = lo[i];
            storage[i + 4] = hi[i];
            i = i + 1;
        }
        assert(storage@ =~= self@);
    }

    /// The mask that has all bits set in the lanes where `self` is at least
    /// `other`, and no bits set elsewhere.
    pub fn geq(self, other: Self) -> (r: Self)
        ensures
            r@.len() == 8,
            forall|i: int| 0 <= i < 8 ==> r@[i] == if self@[i] >= other@[i] { u32::MAX } else { 0 },
    {
        let r = Self(self.0.geq(other.0), self.1.geq(other.1));
        assert forall|i: int| 0 <= i < 8 implies r@[i] == if self@[i] >= other@[i] { u32::MAX } else { 0 } by {
            if i >= 4 {
                assert(r@[i] == r.1@[i - 4]);
                assert(self@[i] == self.1@[i - 4] && other@[i] == other.1@[i - 4]);
            } else {
                assert(self@[i] == self.0@[i] && other@[i] == other.0@[i]);
            }
        }
        r
    }

    /// Select bit by bit: the bits of `if_` where `cond` has bits set, the bits
    /// of `else_` elsewhere.
    pub fn if_then_else(cond: Self, if_: Self, else_: Self) -> (r: Self)
        ensures
            r@.len() == 8,
            forall|i: int| 0 <= i < 8 ==> r@[i] == (cond@[i] & if_@[i]) | (!cond@[i] & else_@[i]),
    {
        let r = Self(u32x4::if_then_else(cond.0, if_.0, else_.0), u32x4::if_then_else(cond.1, if_.1, else_.1));
        assert forall|i: int| 0 <= i < 8 implies r@[i] == (cond@[i] & if_@[i]) | (!cond@[i] & else_@[i]) by {
            if i >= 4 {
                assert(r@[i] == r.1@[i - 4]);
                assert(cond@[i] == cond.1@[i - 4] && if_@[i] == if_.1@[i - 4] && else_@[i] == else_.1@[i - 4]);
            } else {
                assert(cond@[i] == cond.0@[i] && if_@[i] == if_.0@[i] && else_@[i] == else_.0@[i]);
            }
        }
        r
    }

    /// Subtract lane by lane, wrapping around.
    pub fn wrapping_sub(self, other: Self) -> (r: Self)
        ensures
            r@.len() == 8,
            forall|i: int| 0 <= i < 8 ==> r@[i] == (self@[i] - other@[i] + 4294967296) % 4294967296,
    {
        let r = Self(self.0.wrapping_sub(other.0), self.1.wrapping_sub(other.1));
        assert forall|i: int| 0 <= i < 8 implies r@[i] == (self@[i] - other@[i] + 4294967296) % 4294967296 by {
            if i >= 4 {
                assert(r@[i] == r.1@[i - 4]);
                assert(self@[i] == self.1@[i - 4] && other@[i] == other.1@[i - 4]);
            } else {
                assert(self@[i] == self.0@[i] && other@[i] == other.0@[i]);
            }
        }
        r
    }
}

} // verus!
