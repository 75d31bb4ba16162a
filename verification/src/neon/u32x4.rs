//! Four 32-bit lanes, one NEON register's worth.

use vstd::prelude::*;

verus! {

/// Four 32-bit lanes.
#[derive(Copy, Clone, Debug)]
pub struct u32x4([u32; 4]);

impl View for u32x4 {
    type V = Seq<u32>;

    closed spec fn view(&self) -> Seq<u32> {
        self.0@
    }
}

impl u32x4 {
    /// A vector always has 4 lanes.
    pub broadcast proof fn lemma_len(v: u32x4)
        ensures
            (#[trigger] v@).len() == 4,
    {
    }

    /// The vector whose lanes are `lanes`.
    pub fn from_array(lanes: [u32; 4]) -> (r: Self)
        ensures
            r@ == lanes@,
    {
        u32x4(lanes)
    }

    /// The lanes of the vector.
    pub fn to_array(self) -> (r: [u32; 4])
        ensures
            r@ == self@,
    {
        self.0
    }

    /// Set every lane to `value`.
    pub fn splat(value: u32) -> (r: Self)
        ensures
            r@.len() == 4,
            forall|i: int| 0 <= i < 4 ==> r@[i] == value,
    {
        u32x4([value; 4])
    }

    /// Add lane by lane, wrapping around.
    pub fn add(self, rhs: Self) -> (r: Self)
        ensures
            r@.len() == 4,
            forall|i: int| 0 <= i < 4 ==> r@[i] == (self@[i] + rhs@[i]) % 4294967296,
    {
        let mut res = self;
        let mut i: usize = 0;
        while i < 4
            invariant
                i <= 4,
                forall|j: int| 0 <= j < i ==> res@[j] == (self@[j] + rhs@[j]) % 4294967296,
                forall|j: int| i <= j < 4 ==> res@[j] == self@[j],
            decreases 4 - i,
        {
            assert(res@[i as int] == self@[i as int] && rhs@[i as int] == rhs.0[i as int]);
            let a: u32 = res.0[i];
            let b: u32 = rhs.0[i];
            res.0[i] = a.wrapping_add(b);
            i = i + 1;
        }
        res
    }

    /// Subtract lane by lane, wrapping around.
    pub fn sub(self, rhs: Self) -> (r: Self)
        ensures
            r@.len() == 4,
            forall|i: int| 0 <= i < 4 ==> r@[i] == (self@[i] - rhs@[i] + 4294967296) % 4294967296,
    {
        let mut res = self;
        let mut i: usize = 0;
        while i < 4
            invariant
                i <= 4,
                forall|j: int| 0 <= j < i ==> res@[j] == (self@[j] - rhs@[j] + 4294967296) % 4294967296,
                forall|j: int| i <= j < 4 ==> res@[j] == self@[j],
            decreases 4 - i,
        {
            assert(res@[i as int] == self@[i as int] && rhs@[i as int] == rhs.0[i as int]);
            let a: u32 = res.0[i];
            let b: u32 = rhs.0[i];
            res.0[i] = a.wrapping_sub(b);
            i = i + 1;
        }
        res
    }

    /// Subtract lane by lane, wrapping around.
    pub fn wrapping_sub(self, other: Self) -> (r: Self)
        ensures
            r@.len() == 4,
            forall|i: int| 0 <= i < 4 ==> r@[i] == (self@[i] - other@[i] + 4294967296) % 4294967296,
    {
        self.sub(other)
    }

    /// Store the four lanes into a slice of exactly four values.
    pub fn store(self, storage: &mut [u32])
        requires
            old(storage)@.len() == 4,
        ensures
            final(storage)@ == self@,
    {
        let mut i: usize = 0;
        while i < 4
            invariant
                storage@.len() == 4,
                i <= 4,
                forall|j: int| 0 <= j < i ==> storage@[j] == self@[j],
            decreases 4 - i,
        {
            assert(self@[i as int] == self.0[i as int]);
            storage[i] = self.0[i];
            i = i + 1;
        }
        assert(storage@ =~= self@);
    }

    /// The mask that has all bits set in the lanes where `self` is at least
    /// `other`, and no bits set elsewhere.
    pub fn geq(self, other: Self) -> (r: Self)
        ensures
            r@.len() == 4,
            forall|i: int| 0 <= i < 4 ==> r@[i] == if self@[i] >= other@[i] { u32::MAX } else { 0 },
    {
        let mut res = [0u32; 4];
        let mut i: usize = 0;
        while i < 4
            invariant
                i <= 4,
                forall|j: int| 0 <= j < i ==> res@[j] == if self@[j] >= other@[j] { u32::MAX } else { 0 },
            decreases 4 - i,
        {
            assert(self@[i as int] == self.0[i as int] && other@[i as int] == other.0[i as int]);
            res[i] = if self.0[i] >= other.0[i] { u32::MAX } else { 0 };
            i = i + 1;
        }
        u32x4(res)
    }

    /// Select bit by bit: the bits of `if_` where `cond` has bits set, the bits
    /// of `else_` elsewhere.
    pub fn if_then_else(cond: Self, if_: Self, else_: Self) -> (r: Self)
        ensures
            r@.len() == 4,
            forall|i: int| 0 <= i < 4 ==> r@[i] == (cond@[i] & if_@[i]) | (!cond@[i] & else_@[i]),
    {
        let mut res = [0u32; 4];
        let mut i: usize = 0;
        while i < 4
            invariant
                i <= 4,
                forall|j: int| 0 <= j < i ==> res@[j] == (cond@[j] & if_@[j]) | (!cond@[j] & else_@[j]),
            decreases 4 - i,
        {
            assert(cond@[i as int] == cond.0[i as int] && if_@[i as int] == if_.0[i as int]
                && else_@[i as int] == else_.0[i as int]);
            res[i] = (cond.0[i] & if_.0[i]) | (!cond.0[i] & else_.0[i]);
            i = i + 1;
        }
        u32x4(res)
    }
}

/// Selecting with the mask that `geq` makes picks, lane by lane, `if_` where
/// `a` is at least `b` and `else_` elsewhere.
pub proof fn lemma_select_by_comparison(a: u32x4, b: u32x4, if_: u32x4, else_: u32x4, mask: u32x4, r: u32x4)
    requires
        forall|i: int| 0 <= i < 4 ==> mask@[i] == if a@[i] >= b@[i] { u32::MAX } else { 0 },
        forall|i: int| 0 <= i < 4 ==> r@[i] == (mask@[i] & if_@[i]) | (!mask@[i] & else_@[i]),
    ensures
        forall|i: int| 0 <= i < 4 ==> r@[i] == if a@[i] >= b@[i] { if_@[i] } else { else_@[i] },
{
    assert forall|i: int| 0 <= i < 4 implies r@[i] == if a@[i] >= b@[i] { if_@[i] } else { else_@[i] } by {
        let (m, x, y) = (mask@[i], if_@[i], else_@[i]);
        assert(m == u32::MAX ==> (m & x) | (!m & y) == x) by (bit_vector);
        assert(m == 0 ==> (m & x) | (!m & y) == y) by (bit_vector);
    }
}

} // verus!
