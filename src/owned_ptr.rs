//! An exclusively owned block of element slots.
//!
//! Each slot is either initialised (it holds a live element) or
//! uninitialised. Reading a slot moves its element out and leaves it
//! uninitialised; writing fills an uninitialised slot. The block carries no
//! notion of which slots are live: the component that owns it keeps track.
use vstd::prelude::*;

verus! {

/// Handle to a block of slots owned by exactly one buffer or iterator.
pub struct OwnedPtr<T> {
    slots: std::vec::Vec<Option<T>>,
}

impl<T> View for OwnedPtr<T> {
    type V = Seq<Option<T>>;

    closed spec fn view(&self) -> Seq<Option<T>> {
        self.slots@
    }
}

/// The elements held by the slots of `s` in `[start, end)`, in order.
pub open spec fn slot_values<T>(s: Seq<Option<T>>, start: int, end: int) -> Seq<T> {
    Seq::new((end - start) as nat, |i: int| s[start + i]->Some_0)
}

/// Every slot of `s` in `[start, end)` is initialised.
pub open spec fn all_init<T>(s: Seq<Option<T>>, start: int, end: int) -> bool {
    forall|i: int| start <= i < end ==> (#[trigger] s[i]) is Some
}

/// Every slot of `s` in `[start, end)` is uninitialised.
pub open spec fn all_uninit<T>(s: Seq<Option<T>>, start: int, end: int) -> bool {
    forall|i: int| start <= i < end ==> (#[trigger] s[i]) is None
}

impl<T> OwnedPtr<T> {
    /// A handle to no block at all: zero slots.
    pub fn empty() -> (r: Self)
        ensures
            r@ == Seq::<Option<T>>::empty(),
    {
        OwnedPtr { slots: std::vec::Vec::new() }
    }

    /// Takes ownership of an existing block of slots.
    pub fn with_slots(slots: std::vec::Vec<Option<T>>) -> (r: Self)
        ensures
            r@ == slots@,
    {
        OwnedPtr { slots }
    }

    /// Number of slots in the block.
    pub fn slot_count(&self) -> (r: usize)
        ensures
            r == self@.len(),
    {
        self.slots.len()
    }

    /// Appends uninitialised slots until the block holds `new_len` slots.
    pub fn extend_uninit(&mut self, new_len: usize)
        requires
            old(self)@.len() <= new_len,
        ensures
            final(self)@.len() == new_len,
            final(self)@.subrange(0, old(self)@.len() as int) == old(self)@,
            all_uninit(final(self)@, old(self)@.len() as int, new_len as int),
    {
        while self.slots.len() < new_len
            invariant
                old(self)@.len() <= self.slots@.len() <= new_len,
                self.slots@.subrange(0, old(self)@.len() as int) == old(self)@,
                all_uninit(self.slots@, old(self)@.len() as int, self.slots@.len() as int),
            decreases new_len - self.slots@.len(),
        {
            self.slots.push(None);
        }
    }

    /// Borrows the element in slot `i`, if the slot is initialised.
    pub fn get(&self, i: usize) -> (r: Option<&T>)
        requires
            i < self@.len(),
        ensures
            self@[i as int] is None ==> r is None,
            self@[i as int] is Some ==> r == Some(&self@[i as int]->Some_0),
    {
        self.slots[i].as_ref()
    }

    /// Moves the element out of slot `i`, leaving the slot uninitialised.
    pub fn read(&mut self, i: usize) -> (r: T)
        requires
            i < old(self)@.len(),
            old(self)@[i as int] is Some,
        ensures
            r == old(self)@[i as int]->Some_0,
            final(self)@ == old(self)@.update(i as int, None),
    {
        let mut out: Option<T> = None;
        self.slots.set_and_swap(i, &mut out);
        out.unwrap()
    }

    /// Moves `value` into the uninitialised slot `i`. Writing one past the
    /// last slot appends a slot.
    pub fn write(&mut self, i: usize, value: T)
        requires
            i <= old(self)@.len(),
            i < old(self)@.len() ==> old(self)@[i as int] is None,
        ensures
            i < old(self)@.len() ==> final(self)@ == old(self)@.update(i as int, Some(value)),
            i == old(self)@.len() ==> final(self)@ == old(self)@.push(Some(value)),
    {
        if i < self.slots.len() {
            self.slots.set(i, Some(value));
        } else {
            self.slots.push(Some(value));
        }
    }
}

} // verus!
