//! A double-ended cursor over a range of slots that it does not own.
//!
//! The cursor is a pair of slot indices `[start, end)`: the slots not yet
//! consumed. It holds no storage; each step is handed the block it ranges
//! over, moves one element out of it and leaves that slot uninitialised.
//! The two ends converge, so every element of the range is yielded exactly
//! once, whatever the order of forward and backward steps.
use vstd::prelude::*;

use crate::owned_ptr::{all_init, slot_values, OwnedPtr};

verus! {

/// The unconsumed slot range `[start, end)` of some block.
pub struct RawValIter {
    start: usize,
    end: usize,
}

impl RawValIter {
    /// First slot not yet consumed.
    pub closed spec fn spec_start(&self) -> nat {
        self.start as nat
    }

    /// One past the last slot not yet consumed.
    pub closed spec fn spec_end(&self) -> nat {
        self.end as nat
    }

    /// The cursor's range lies in `block` and every slot of it is initialised.
    pub open spec fn wf_in<T>(&self, block: Seq<Option<T>>) -> bool {
        &&& self.spec_start() <= self.spec_end() <= block.len()
        &&& all_init(block, self.spec_start() as int, self.spec_end() as int)
    }

    /// The elements not yet yielded, front to back.
    pub open spec fn remaining<T>(&self, block: Seq<Option<T>>) -> Seq<T> {
        slot_values(block, self.spec_start() as int, self.spec_end() as int)
    }

    /// A cursor over the slots `[start, end)`.
    pub fn new(start: usize, end: usize) -> (r: Self)
        requires
            start <= end,
        ensures
            r.spec_start() == start,
            r.spec_end() == end,
    {
        RawValIter { start, end }
    }

    /// Number of elements not yet yielded, as an exact lower and upper bound.
    pub fn size_hint(&self) -> (r: (usize, Option<usize>))
        requires
            self.spec_start() <= self.spec_end(),
        ensures
            r.0 == self.spec_end() - self.spec_start(),
            r.1 == Some(r.0),
    {
        let len = self.end - self.start;
        (len, Some(len))
    }

    /// Yields the element at the front of the range, or nothing once the
    /// range is exhausted.
    pub fn next<T>(&mut self, block: &mut OwnedPtr<T>) -> (r: Option<T>)
        requires
            old(self).wf_in(old(block)@),
        ensures
            final(self).wf_in(final(block)@),
            final(self).spec_end() == old(self).spec_end(),
            old(self).remaining(old(block)@).len() == 0 ==> {
                &&& r is None
                &&& *final(self) == *old(self)
                &&& final(block)@ == old(block)@
            },
            old(self).remaining(old(block)@).len() > 0 ==> {
                &&& r == Some(old(self).remaining(old(block)@).first())
                &&& final(self).remaining(final(block)@) == old(self).remaining(old(block)@).drop_first()
                &&& final(self).spec_start() == old(self).spec_start() + 1
                &&& final(block)@ == old(block)@.update(old(self).spec_start() as int, None)
            },
    {
        if self.start == self.end {
            None
        } else {
            let result = block.read(self.start);
            self.start = self.start + 1;
            assert(self.remaining(block@) =~= old(self).remaining(old(block)@).drop_first());
            Some(result)
        }
    }

    /// Yields the element at the back of the range, or nothing once the
    /// range is exhausted.
    pub fn next_back<T>(&mut self, block: &mut OwnedPtr<T>) -> (r: Option<T>)
        requires
            old(self).wf_in(old(block)@),
        ensures
            final(self).wf_in(final(block)@),
            final(self).spec_start() == old(self).spec_start(),
            old(self).remaining(old(block)@).len() == 0 ==> {
                &&& r is None
                &&& *final(self) == *old(self)
                &&& final(block)@ == old(block)@
            },
            old(self).remaining(old(block)@).len() > 0 ==> {
                &&& r == Some(old(self).remaining(old(block)@).last())
                &&& final(self).remaining(final(block)@) == old(self).remaining(old(block)@).drop_last()
                &&& final(self).spec_end() == old(self).spec_end() - 1
                &&& final(block)@ == old(block)@.update(old(self).spec_end() - 1, None)
            },
    {
        if self.start == self.end {
            None
        } else {
            self.end = self.end - 1;
            let result = block.read(self.end);
            assert(self.remaining(block@) =~= old(self).remaining(old(block)@).drop_last());
            Some(result)
        }
    }
}

} // verus!
