//! The draining iterator: yields, lazily, a suffix that has already been
//! cut off an array.
//!
//! Creating a drain shortens the array at once and hands the slots of the
//! cut-off suffix to the iterator, which owns them from then on. Iteration
//! moves the elements out one at a time from either end; whatever has not
//! been yielded when the iterator is dropped is dropped with it, so a
//! partly consumed drain never leaks the rest of its range.
use vstd::prelude::*;

use crate::owned_ptr::OwnedPtr;
use crate::raw_val_iter::RawValIter;

verus! {

/// Iterator over the elements cut off an array by [`crate::vec::Vec::drain`].
pub struct Drain<T> {
    block: OwnedPtr<T>,
    iter: RawValIter,
}

impl<T> View for Drain<T> {
    type V = Seq<T>;

    /// The elements not yet yielded, front to back.
    closed spec fn view(&self) -> Seq<T> {
        self.iter.remaining(self.block@)
    }
}

impl<T> Drain<T> {
    /// The cursor ranges over initialised slots of the drained block.
    pub closed spec fn wf(&self) -> bool {
        self.iter.wf_in(self.block@)
    }

    /// Bundles a block of drained slots with a cursor over them.
    pub fn new(block: OwnedPtr<T>, iter: RawValIter) -> (r: Self)
        requires
            iter.wf_in(block@),
        ensures
            r.wf(),
            r@ == iter.remaining(block@),
    {
        Drain { block, iter }
    }

    /// Yields the first element not yet yielded, or nothing once exhausted.
    pub fn next(&mut self) -> (r: Option<T>)
        requires
            old(self).wf(),
        ensures
            final(self).wf(),
            old(self)@.len() == 0 ==> r is None && final(self)@ == old(self)@,
            old(self)@.len() > 0 ==> {
                &&& r == Some(old(self)@.first())
                &&& final(self)@ == old(self)@.drop_first()
            },
    {
        self.iter.next(&mut self.block)
    }

    /// Yields the last element not yet yielded, or nothing once exhausted.
    pub fn next_back(&mut self) -> (r: Option<T>)
        requires
            old(self).wf(),
        ensures
            final(self).wf(),
            old(self)@.len() == 0 ==> r is None && final(self)@ == old(self)@,
            old(self)@.len() > 0 ==> {
                &&& r == Some(old(self)@.last())
                &&& final(self)@ == old(self)@.drop_last()
            },
    {
        self.iter.next_back(&mut self.block)
    }

    /// Number of elements not yet yielded, as an exact lower and upper bound.
    pub fn size_hint(&self) -> (r: (usize, Option<usize>))
        requires
            self.wf(),
        ensures
            r.0 == self@.len(),
            r.1 == Some(r.0),
    {
        self.iter.size_hint()
    }
}

} // verus!
