//! Eight 32-bit index lanes, made of two halves of four lanes.

use vstd::prelude::*;
use crate::fallback::u32x4::u32x4;

verus! {

broadcast use u32x4::lemma_len;

/// Eight 32-bit lanes: the low four, then the high four.
#[derive(Copy, Clone, Debug)]
pub struct u32x8(u32x4, u32x4);

impl View for u32x8 {
    type V = Seq<u32>;

    closed spec fn view(&self) -> Seq<u32> {
        self.0@ + self.1@
    }
}

impl u32x8 {
    /// A vector always has eight lanes.
    pub broadcast proof fn lemma_len(v: u32x8)
        ensures
            (#[trigger] v@).len() == 8,
    {
    }

    /// The vector made of the two halves `lo` and `hi`.
    pub fn from_halves(lo: u32x4, hi: u32x4) -> (r: Self)
        ensures
            r@ == lo@ + hi@,
    {
        u32x8(lo, hi)
    }

    /// Add lane by lane; no lane may overflow.
    pub fn add(self, rhs: Self) -> (r: Self)
        requires
            forall|i: int| 0 <= i < 8 ==> self@[i] + rhs@[i] <= u32::MAX,
        ensures
            r@.len() == 8,
            forall|i: int| 0 <= i < 8 ==> r@[i] == self@[i] + rhs@[i],
    {
        assert forall|i: int| 0 <= i < 4 implies self.0@[i] + rhs.0@[i] <= u32::MAX
            && self.1@[i] + rhs.1@[i] <= u32::MAX by {
            assert(self@[i] == self.0@[i] && rhs@[i] == rhs.0@[i]);
            assert(self@[i + 4] == self.1@[i] && rhs@[i + 4] == rhs.1@[i]);
        }
        let r = u32x8(self.0.add(rhs.0), self.1.add(rhs.1));
        assert forall|i: int| 0 <= i < 8 implies r@[i] == self@[i] + rhs@[i] by {
            if i >= 4 {
                assert(r@[i] == r.1@[i - 4]);
            }
        }
        r
    }

    /// Store the eight lanes into the first eight entries of `storage`.
    pub fn store(self, storage: &mut [u32])
        requires
            old(storage)@.len() >= 8,
        ensures
            final(storage)@.len() == old(storage)@.len(),
            final(storage)@.subrange(0, 8) == self@,
            final(storage)@.subrange(8, old(storage)@.len() as int) == old(storage)@.subrange(
                8,
                old(storage)@.len() as int,
            ),
    {
        let mut lo = [0u32; 4];
        let mut hi = [0u32; 4];
        self.0.store(&mut lo);
        self.1.store(&mut hi);
        for i in 0..4
            invariant
                storage@.len() == old(storage)@.len(),
                storage@.len() >= 8,
                lo@ == self.0@,
                hi@ == self.1@,
                forall|j: int| 0 <= j < i ==> storage@[j] == self.0@[j],
                forall|j: int| 4 <= j < 4 + i ==> storage@[j] == self.1@[j - 4],
                forall|j: int| 8 <= j < storage@.len() ==> storage@[j] == old(storage)@[j],
        {
            storage[i] = lo[i];
            storage[i + 4] = hi[i];
        }
        assert(storage@.subrange(0, 8) =~= self@);
        assert(storage@.subrange(8, old(storage)@.len() as int) =~= old(storage)@.subrange(
            8,
            old(storage)@.len() as int,
        ));
    }

    /// Set every lane to `value`.
    pub fn splat(value: u32) -> (r: Self)
        ensures
            r@.len() == 8,
            forall|i: int| 0 <= i < 8 ==> r@[i] == value,
    {
        let splatted = u32x4::splat(value);
        let r = u32x8(splatted, splatted);
        assert forall|i: int| 0 <= i < 8 implies r@[i] == value by {
            if i >= 4 {
                assert(r@[i] == r.1@[i - 4]);
            }
        }
        r
    }

    /// Whether each lane of `self` is at least the lane of `other`, as the masks
    /// of the two halves.
    pub fn geq(self, other: Self) -> (r: ([bool; 4], [bool; 4]))
        ensures
            forall|i: int| 0 <= i < 4 ==> r.0@[i] == (self@[i] >= other@[i]),
            forall|i: int| 0 <= i < 4 ==> r.1@[i] == (self@[i + 4] >= other@[i + 4]),
    {
        let a = self.0.geq(other.0);
        let b = self.1.geq(other.1);
        assert forall|i: int| 0 <= i < 4 implies self@[i] == self.0@[i] && other@[i]
            == other.0@[i] && self@[i + 4] == self.1@[i] && other@[i + 4] == other.1@[i] by {}
        (a, b)
    }

    /// Choose between `if_` and `else_` half by half, each half by the first entry
    /// of its mask.
    pub fn if_then_else(cond: ([bool; 4], [bool; 4]), if_: Self, else_: Self) -> (r: Self)
        ensures
            r@.subrange(0, 4) == if cond.0[0] {
                if_@.subrange(0, 4)
            } else {
                else_@.subrange(0, 4)
            },
            r@.subrange(4, 8) == if cond.1[0] {
                if_@.subrange(4, 8)
            } else {
                else_@.subrange(4, 8)
            },
    {
        let a = u32x4::if_then_else(cond.0, if_.0, else_.0);
        let b = u32x4::if_then_else(cond.1, if_.1, else_.1);
        let r = u32x8(a, b);
        assert(r@.subrange(0, 4) =~= a@);
        assert(r@.subrange(4, 8) =~= b@);
        assert(if_@.subrange(0, 4) =~= if_.0@ && if_@.subrange(4, 8) =~= if_.1@);
        assert(else_@.subrange(0, 4) =~= else_.0@ && else_@.subrange(4, 8) =~= else_.1@);
        r
    }
}

} // verus!
