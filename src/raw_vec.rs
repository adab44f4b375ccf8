//! The buffer of a growable array: one block of slots and its capacity.
//!
//! The buffer knows how many slots exist, never how many are live. Its
//! capacity starts at zero and doubles on each growth step. For a
//! zero-sized element type no storage is ever reserved and the capacity is
//! the unbounded sentinel `usize::MAX`, so growth is never asked for.
use vstd::prelude::*;
use vstd::layout::size_of;

use crate::owned_ptr::{all_uninit, OwnedPtr};

verus! {

/// The capacity after one growth step from `cap`: `0 -> 1 -> 2 -> 4 -> ...`.
pub open spec fn next_capacity(cap: nat) -> nat {
    if cap == 0 { 1 } else { 2 * cap }
}

/// Whether one growth step from `cap` slots of `T` stays clear of the
/// capacity-overflow condition: the current size in bytes is at most half
/// of the largest representable offset. Zero-sized types never grow.
pub open spec fn growth_fits<T>(cap: nat) -> bool {
    size_of::<T>() != 0 && cap * size_of::<T>() <= (isize::MAX as int) / 2
}

/// A buffer of element slots with a capacity that only grows.
pub struct RawVec<T> {
    ptr: OwnedPtr<T>,
    cap: usize,
}

impl<T> View for RawVec<T> {
    type V = Seq<Option<T>>;

    /// The slots that the buffer owns.
    closed spec fn view(&self) -> Seq<Option<T>> {
        self.ptr@
    }
}

impl<T> RawVec<T> {
    /// Number of element slots the buffer provides.
    pub closed spec fn spec_capacity(&self) -> usize {
        self.cap
    }

    /// The buffer's invariant: a sized type has exactly `capacity` slots,
    /// no more bytes than an offset can address; a zero-sized type has the
    /// unbounded capacity and never more slots than that.
    pub open spec fn wf(&self) -> bool {
        &&& self@.len() <= self.spec_capacity()
        &&& size_of::<T>() == 0 ==> self.spec_capacity() == usize::MAX
        &&& size_of::<T>() != 0 ==> {
            &&& self@.len() == self.spec_capacity()
            &&& self.spec_capacity() * size_of::<T>() <= isize::MAX as int
        }
    }

    /// An empty buffer: capacity zero, or the unbounded sentinel for a
    /// zero-sized type.
    pub fn default() -> (r: Self)
        ensures
            r.wf(),
            r@ == Seq::<Option<T>>::empty(),
            r.spec_capacity() == if size_of::<T>() == 0 { usize::MAX } else { 0 },
    {
        let cap: usize = if core::mem::size_of::<T>() == 0 { usize::MAX } else { 0 };
        RawVec { ptr: OwnedPtr::empty(), cap }
    }

    /// Number of element slots the buffer provides.
    pub fn capacity(&self) -> (r: usize)
        ensures
            r == self.spec_capacity(),
    {
        self.cap
    }

    /// Doubles the capacity (from zero to one on the first step). Existing
    /// slots keep their contents; the new ones are uninitialised.
    pub fn grow(&mut self)
        requires
            old(self).wf(),
            growth_fits::<T>(old(self).spec_capacity() as nat),
        ensures
            final(self).wf(),
            final(self).spec_capacity() == next_capacity(old(self).spec_capacity() as nat),
            final(self)@.subrange(0, old(self)@.len() as int) == old(self)@,
            all_uninit(final(self)@, old(self)@.len() as int, final(self)@.len() as int),
    {
        vstd::layout::layout_for_type_is_valid::<T>();
        let elem_size = core::mem::size_of::<T>();
        let new_cap: usize = if self.cap == 0 {
            1
        } else {
            let old_num_bytes = self.cap * elem_size;
            assert(old_num_bytes <= (isize::MAX as usize) / 2);
            assert(self.cap <= old_num_bytes) by (nonlinear_arith)
                requires
                    old_num_bytes == self.cap * elem_size,
                    elem_size >= 1,
            ;
            self.cap * 2
        };
        assert(new_cap * elem_size <= isize::MAX) by (nonlinear_arith)
            requires
                new_cap == 1 || new_cap == self.cap * 2,
                new_cap == 1 ==> elem_size <= isize::MAX,
                new_cap != 1 ==> self.cap * elem_size <= (isize::MAX as int) / 2,
        ;
        self.ptr.extend_uninit(new_cap);
        self.cap = new_cap;
    }

    /// Lends out the block of slots; the capacity stays as it is.
    pub fn block_mut(&mut self) -> (r: &mut OwnedPtr<T>)
        ensures
            r@ == old(self)@,
            final(self)@ == final(r)@,
            final(self).spec_capacity() == old(self).spec_capacity(),
    {
        &mut self.ptr
    }

    /// Borrows the element in slot `i`, if the slot is initialised.
    pub fn get(&self, i: usize) -> (r: Option<&T>)
        requires
            i < self@.len(),
        ensures
            self@[i as int] is None ==> r is None,
            self@[i as int] is Some ==> r == Some(&self@[i as int]->Some_0),
    {
        self.ptr.get(i)
    }

    /// Moves the element out of slot `i`, leaving it uninitialised.
    pub fn read(&mut self, i: usize) -> (r: T)
        requires
            i < old(self)@.len(),
            old(self)@[i as int] is Some,
        ensures
            r == old(self)@[i as int]->Some_0,
            final(self)@ == old(self)@.update(i as int, None),
            final(self).spec_capacity() == old(self).spec_capacity(),
    {
        self.ptr.read(i)
    }

    /// Moves `value` into the uninitialised slot `i`.
    pub fn write(&mut self, i: usize, value: T)
        requires
            old(self).wf(),
            i < old(self).spec_capacity(),
            i <= old(self)@.len(),
            i < old(self)@.len() ==> old(self)@[i as int] is None,
        ensures
            final(self).wf(),
            final(self).spec_capacity() == old(self).spec_capacity(),
            i < old(self)@.len() ==> final(self)@ == old(self)@.update(i as int, Some(value)),
            i == old(self)@.len() ==> final(self)@ == old(self)@.push(Some(value)),
    {
        self.ptr.write(i, value);
    }
}

} // verus!
