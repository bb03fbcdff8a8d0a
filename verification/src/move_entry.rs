//! A small bounded stack of moves, used per ply for killer moves and for
//! refutations recorded by null-move searches. Pushes reject duplicates to
//! keep the slots diverse; when full, the oldest entry is dropped.

use vstd::prelude::*;

use crate::moves::MoveData;
use crate::params::MOVE_ENTRY_CAP;

verus! {

#[derive(Debug, Clone)]
pub struct MoveEntry {
    slots: Vec<MoveData>,
}

impl MoveEntry {
    pub closed spec fn view(&self) -> Seq<MoveData> {
        self.slots@
    }

    pub open spec fn wf(&self) -> bool {
        &&& self@.len() <= MOVE_ENTRY_CAP
        &&& forall|i: int, j: int| 0 <= i < j < self@.len() ==> self@[i] != self@[j]
    }

    pub fn new() -> (r: Self)
        ensures
            r.wf(),
            r@.len() == 0,
    {
        MoveEntry { slots: Vec::new() }
    }

    pub fn clear(&mut self)
        ensures
            final(self).wf(),
            final(self)@.len() == 0,
    {
        self.slots.clear();
    }

    /// Builds an equal stack.
    pub fn duplicate(&self) -> (r: Self)
        ensures
            r@ == self@,
    {
        let mut slots: Vec<MoveData> = Vec::new();
        let mut i: usize = 0;
        while i < self.slots.len()
            invariant
                i <= self.slots@.len(),
                i == slots@.len(),
                forall|j: int| 0 <= j < i ==> slots@[j] == self.slots@[j],
            decreases self.slots@.len() - i,
        {
            slots.push(self.slots[i]);
            i += 1;
        }
        let r = MoveEntry { slots };
        proof {
            assert(r@ =~= self@);
        }
        r
    }

    pub fn len(&self) -> (r: usize)
        ensures
            r == self@.len(),
    {
        self.slots.len()
    }

    pub fn get(&self, i: usize) -> (r: Option<MoveData>)
        ensures
            i < self@.len() ==> r == Some(self@[i as int]),
            i >= self@.len() ==> r is None,
    {
        if i < self.slots.len() {
            Some(self.slots[i])
        } else {
            None
        }
    }

    /// Pushes a move to the front unless it is already present; drops the
    /// oldest move when the stack is full.
    pub fn push(&mut self, mv: MoveData)
        requires
            old(self).wf(),
        ensures
            final(self).wf(),
            final(self)@.contains(mv),
            // an already-present move leaves the stack unchanged
            old(self)@.contains(mv) ==> final(self)@ == old(self)@,
            !old(self)@.contains(mv) ==> final(self)@[0] == mv,
    {
        let mut i: usize = 0;
        while i < self.slots.len()
            invariant
                *self == *old(self),
                old(self).wf(),
                0 <= i <= self.slots@.len(),
                forall|j: int| 0 <= j < i ==> self.slots@[j] != mv,
            decreases self.slots@.len() - i,
        {
            if self.slots[i] == mv {
                assert(self.slots@.contains(mv));
                return ;
            }
            i += 1;
        }
        assert(!self.slots@.contains(mv));
        let ghost before = self.slots@;
        self.slots.insert(0, mv);
        let ghost mid = self.slots@;
        assert(mid[0] == mv);
        assert forall|i: int, j: int| 0 <= i < j < mid.len() implies mid[i] != mid[j] by {
            assert(mid[j] == before[j - 1]);
            if i > 0 {
                assert(mid[i] == before[i - 1]);
            } else {
                assert(before.contains(before[j - 1]));
            }
        }
        if self.slots.len() > MOVE_ENTRY_CAP {
            self.slots.pop();
            assert(self.slots@ == mid.subrange(0, mid.len() - 1));
        }
        assert(self.slots@[0] == mv);
        assert(self.slots@.contains(mv));
    }
}

} // verus!
