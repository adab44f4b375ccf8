//! The consuming iterator: takes over an array's buffer and yields each
//! live element exactly once, from either end.
//!
//! The buffer is kept until the iterator itself is dropped; whatever has
//! not been yielded by then is dropped with it.
use vstd::prelude::*;

use crate::raw_val_iter::RawValIter;
use crate::raw_vec::RawVec;

verus! {

/// Iterator that owns the buffer of a consumed array.
pub struct IntoIter<T> {
    buf: RawVec<T>,
    iter: RawValIter,
}

impl<T> View for IntoIter<T> {
    type V = Seq<T>;

    /// The elements not yet yielded, front to back.
    closed spec fn view(&self) -> Seq<T> {
        self.iter.remaining(self.buf@)
    }
}

impl<T> IntoIter<T> {
    /// The cursor ranges over initialised slots of the retained buffer.
    pub closed spec fn wf(&self) -> bool {
        self.iter.wf_in(self.buf@)
    }

    /// Bundles a buffer with a cursor over its initialised slots.
    pub fn new(buf: RawVec<T>, iter: RawValIter) -> (r: Self)
        requires
            iter.wf_in(buf@),
        ensures
            r.wf(),
            r@ == iter.remaining(buf@),
    {
        IntoIter { buf, iter }
    }

    /// Yields the first element not yet yielded, or nothing once exhausted.
    pub fn next(&mut self) -> (r: Option<T>)
        requires
            old(self).wf(),
        ensures
            final(self).wf(),
            old(self)@.len() == 0 ==> r is None && final(self)@ == old(self)@,
            old(self)@.len() > 0 ==> {
                &&& r == Some(old(self)@.first())
                &&& final(self)@ == old(self)@.drop_first()
            },
    {
        self.iter.next(self.buf.block_mut())
    }

    /// Yields the last element not yet yielded, or nothing once exhausted.
    pub fn next_back(&mut self) -> (r: Option<T>)
        requires
            old(self).wf(),
        ensures
            final(self).wf(),
            old(self)@.len() == 0 ==> r is None && final(self)@ == old(self)@,
            old(self)@.len() > 0 ==> {
                &&& r == Some(old(self)@.last())
                &&& final(self)@ == old(self)@.drop_last()
            },
    {
        self.iter.next_back(self.buf.block_mut())
    }

    /// Number of elements not yet yielded, as an exact lower and upper bound.
    pub fn size_hint(&self) -> (r: (usize, Option<usize>))
        requires
            self.wf(),
        ensures
            r.0 == self@.len(),
            r.1 == Some(r.0),
    {
        self.iter.size_hint()
    }
}

} // verus!
