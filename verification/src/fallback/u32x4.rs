//! Four 32-bit index lanes.

use vstd::prelude::*;

verus! {

/// Four 32-bit lanes.
#[derive(Copy, Clone, Debug)]
pub struct u32x4([u32; 4]);

impl View for u32x4 {
    type V = Seq<u32>;

    closed spec fn view(&self) -> Seq<u32> {
        self.0@
    }
}

impl u32x4 {
    /// A vector always has four lanes.
    pub broadcast proof fn lemma_len(v: u32x4)
        ensures
            (#[trigger] v@).len() == 4,
    {
    }

    /// The vector whose lanes are `lanes`.
    pub fn from_array(lanes: [u32; 4]) -> (r: Self)
        ensures
            r@ == lanes@,
    {
        u32x4(lanes)
    }

    /// Add lane by lane; no lane may overflow.
    pub fn add(self, rhs: Self) -> (r: Self)
        requires
            forall|i: int| 0 <= i < 4 ==> self@[i] + rhs@[i] <= u32::MAX,
        ensures
            r@.len() == 4,
            forall|i: int| 0 <= i < 4 ==> r@[i] == self@[i] + rhs@[i],
    {
        assert(self@[0] == self.0[0] && self@[1] == self.0[1] && self@[2] == self.0[2] && self@[3]
            == self.0[3]);
        assert(rhs@[0] == rhs.0[0] && rhs@[1] == rhs.0[1] && rhs@[2] == rhs.0[2] && rhs@[3]
            == rhs.0[3]);
        let r = u32x4(
            [
                self.0[0] + rhs.0[0],
                self.0[1] + rhs.0[1],
                self.0[2] + rhs.0[2],
                self.0[3] + rhs.0[3],
            ],
        );
        assert forall|i: int| 0 <= i < 4 implies r@[i] == self@[i] + rhs@[i] by {
            assert(i == 0 || i == 1 || i == 2 || i == 3);
        }
        r
    }

    /// Store the four lanes into a slice of exactly four values.
    pub fn store(self, storage: &mut [u32])
        requires
            old(storage)@.len() == 4,
        ensures
            final(storage)@ == self@,
    {
        for i in 0..4
            invariant
                storage@.len() == 4,
                forall|j: int| 0 <= j < i ==> storage@[j] == self@[j],
        {
            storage[i] = self.0[i];
        }
        assert(storage@ =~= self@);
    }

    /// Set every lane to `value`.
    pub fn splat(value: u32) -> (r: Self)
        ensures
            r@.len() == 4,
            forall|i: int| 0 <= i < 4 ==> r@[i] == value,
    {
        u32x4([value; 4])
    }

    /// Whether each lane of `self` is at least the lane of `other`.
    pub fn geq(self, other: Self) -> (r: [bool; 4])
        ensures
            forall|i: int| 0 <= i < 4 ==> r@[i] == (self@[i] >= other@[i]),
    {
        let r = [
            self.0[0] >= other.0[0],
            self.0[1] >= other.0[1],
            self.0[2] >= other.0[2],
            self.0[3] >= other.0[3],
        ];
        assert forall|i: int| 0 <= i < 4 implies r@[i] == (self@[i] >= other@[i]) by {
            assert(i == 0 || i == 1 || i == 2 || i == 3);
        }
        r
    }

    /// Choose `if_` or `else_`; the choice for all four lanes is made by the
    /// first entry of `cond`.
    pub fn if_then_else(cond: [bool; 4], if_: Self, else_: Self) -> (r: Self)
        ensures
            r@ == if cond[0] {
                if_@
            } else {
                else_@
            },
    {
        let r = u32x4(
            [
                if cond[0] {
                    if_.0[0]
                } else {
                    else_.0[0]
                },
                if cond[0] {
                    if_.0[1]
                } else {
                    else_.0[1]
                },
                if cond[0] {
                    if_.0[2]
                } else {
                    else_.0[2]
                },
                if cond[0] {
                    if_.0[3]
                } else {
                    else_.0[3]
                },
            ],
        );
        assert(r@ =~= if cond[0] {
            if_@
        } else {
            else_@
        });
        r
    }
}

} // verus!
