//! The growable array: a buffer plus the number of live elements.
//!
//! The slots `[0, len)` of the buffer hold the live elements, in order; the
//! slots from `len` on are uninitialised. An element read out of the array
//! (by `pop`, `remove`, a drain or the consuming iterator) leaves its slot
//! and passes to the caller.
use vstd::prelude::*;
use vstd::layout::size_of;

use crate::drain::Drain;
use crate::into_iter::IntoIter;
use crate::owned_ptr::{all_init, all_uninit, slot_values, OwnedPtr};
use crate::raw_val_iter::RawValIter;
use crate::raw_vec::{growth_fits, next_capacity, RawVec};

verus! {

/// A growable array of `T`, stored contiguously in one buffer.
pub struct Vec<T> {
    buf: RawVec<T>,
    len: usize,
}

impl<T> View for Vec<T> {
    type V = Seq<T>;

    /// The live elements, in order.
    closed spec fn view(&self) -> Seq<T> {
        slot_values(self.buf@, 0, self.len as int)
    }
}

/// The capacity an array has after a push or an insert that found it
/// holding `len` elements in `cap` slots: unchanged unless it was full.
pub open spec fn capacity_after_add(len: nat, cap: nat) -> nat {
    if len == cap { next_capacity(cap) } else { cap }
}

/// The elements of an array after pushing the elements of `s`, in order,
/// onto an empty one.
pub open spec fn pushed_all<T>(s: Seq<T>) -> Seq<T>
    decreases s.len(),
{
    if s.len() == 0 {
        Seq::empty()
    } else {
        pushed_all(s.drop_last()).push(s.last())
    }
}

/// What one `pop` returns from an array holding `v`.
pub open spec fn pop_result<T>(v: Seq<T>) -> Option<T> {
    if v.len() == 0 { None } else { Some(v.last()) }
}

/// The elements left after `n` calls of `pop` on an array holding `v`.
pub open spec fn after_pops<T>(v: Seq<T>, n: nat) -> Seq<T>
    decreases n,
{
    if n == 0 || v.len() == 0 {
        v
    } else {
        after_pops(v.drop_last(), (n - 1) as nat)
    }
}

/// The capacity of an array of a sized element type after `n` pushes onto
/// an empty one.
pub open spec fn capacity_after_pushes(n: nat) -> nat
    decreases n,
{
    if n == 0 {
        0
    } else {
        capacity_after_add((n - 1) as nat, capacity_after_pushes((n - 1) as nat))
    }
}

/// `x` is one of 1, 2, 4, 8, ...
pub open spec fn is_power_of_two(x: nat) -> bool
    decreases x,
{
    if x == 1 {
        true
    } else if x >= 2 && x % 2 == 0 {
        is_power_of_two(x / 2)
    } else {
        false
    }
}

impl<T> Vec<T> {
    /// Number of element slots; the unbounded sentinel `usize::MAX` for a
    /// zero-sized element type.
    pub closed spec fn spec_capacity(&self) -> usize {
        self.buf.spec_capacity()
    }

    /// The array's invariant: the buffer is well formed, the live elements
    /// fill exactly the slots `[0, len)` and every later slot is
    /// uninitialised.
    pub closed spec fn wf(&self) -> bool {
        &&& self.buf.wf()
        &&& self.len <= self.buf@.len()
        &&& all_init(self.buf@, 0, self.len as int)
        &&& all_uninit(self.buf@, self.len as int, self.buf@.len() as int)
    }

    /// One more element can be added without the capacity-overflow
    /// condition: the array is not full, or its buffer can still grow.
    pub open spec fn can_add(&self) -> bool {
        self@.len() < self.spec_capacity() || growth_fits::<T>(self.spec_capacity() as nat)
    }

    proof fn lemma_wf_len(&self)
        requires
            self.wf(),
        ensures
            self@.len() == self.len,
            self@.len() <= self.spec_capacity(),
    {
    }

    /// Create a new `Vec` with no elements.
    pub fn default() -> (r: Self)
        ensures
            r.wf(),
            r@ == Seq::<T>::empty(),
            r.spec_capacity() == if size_of::<T>() == 0 { usize::MAX } else { 0 },
    {
        let r = Vec { buf: RawVec::default(), len: 0 };
        assert(r@ =~= Seq::<T>::empty());
        r
    }

    /// Returns capacity.
    pub fn capacity(&self) -> (r: usize)
        ensures
            r == self.spec_capacity(),
    {
        self.buf.capacity()
    }

    /// Number of live elements.
    pub fn len(&self) -> (r: usize)
        requires
            self.wf(),
        ensures
            r == self@.len(),
    {
        proof { self.lemma_wf_len(); }
        self.len
    }

    /// Whether the array holds no element.
    pub fn is_empty(&self) -> (r: bool)
        requires
            self.wf(),
        ensures
            r == (self@.len() == 0),
    {
        proof { self.lemma_wf_len(); }
        self.len == 0
    }

    /// Appends an element to the last position, doubling the capacity first
    /// if the array is full.
    pub fn push(&mut self, elem: T)
        requires
            old(self).wf(),
            old(self).can_add(),
        ensures
            final(self).wf(),
            final(self)@ == old(self)@.push(elem),
            final(self).spec_capacity() == capacity_after_add(
                old(self)@.len(),
                old(self).spec_capacity() as nat,
            ),
    {
        proof { self.lemma_wf_len(); }
        if self.len == self.capacity() {
            self.buf.grow();
        }
        let ghost before = self.buf@;
        assert forall|i: int| 0 <= i < self.len implies before[i] == old(self).buf@[i] by {
            assert(before.subrange(0, old(self).buf@.len() as int)[i] == before[i]);
        }
        self.buf.write(self.len, elem);
        assert forall|i: int| 0 <= i < self.len implies self.buf@[i] == before[i] by {}
        self.len = self.len + 1;
        assert(self@ =~= old(self)@.push(elem));
    }

    /// Removes and returns an element from the last position.
    /// Returns `None` if no elements are stored.
    pub fn pop(&mut self) -> (r: Option<T>)
        requires
            old(self).wf(),
        ensures
            final(self).wf(),
            final(self).spec_capacity() == old(self).spec_capacity(),
            r == pop_result(old(self)@),
            old(self)@.len() == 0 ==> final(self)@ == old(self)@,
            old(self)@.len() > 0 ==> final(self)@ == old(self)@.drop_last(),
    {
        proof { self.lemma_wf_len(); }
        if self.len == 0 {
            None
        } else {
            self.len = self.len - 1;
            let last = self.buf.read(self.len);
            assert(self@ =~= old(self)@.drop_last());
            Some(last)
        }
    }

    /// Inserts an element at `index`; the elements from `index` on shift
    /// one position to the right. Doubles the capacity first if the array
    /// is full.
    pub fn insert(&mut self, index: usize, elem: T)
        requires
            old(self).wf(),
            index <= old(self)@.len(),
            old(self).can_add(),
        ensures
            final(self).wf(),
            final(self)@ == old(self)@.insert(index as int, elem),
            final(self).spec_capacity() == capacity_after_add(
                old(self)@.len(),
                old(self).spec_capacity() as nat,
            ),
    {
        proof { self.lemma_wf_len(); }
        if self.len == self.capacity() {
            self.buf.grow();
        }
        let ghost grown = self.buf@;
        assert forall|i: int| 0 <= i < self.len implies grown[i] == old(self).buf@[i] by {
            assert(grown.subrange(0, old(self).buf@.len() as int)[i] == grown[i]);
        }
        let ghost new_slot_count: int = if grown.len() > self.len {
            grown.len() as int
        } else {
            self.len + 1
        };
        let len = self.len;
        let mut j = len;
        while j > index
            invariant
                self.buf.wf(),
                self.buf.spec_capacity() == capacity_after_add(
                    old(self)@.len(),
                    old(self).spec_capacity() as nat,
                ),
                self.len == len,
                len < self.buf.spec_capacity(),
                index <= j <= len,
                j == len ==> self.buf@ == grown,
                new_slot_count == if grown.len() > len { grown.len() as int } else { len + 1 },
                j < len ==> self.buf@.len() == new_slot_count,
                self.buf@.len() >= grown.len(),
                j <= self.buf@.len(),
                j < self.buf@.len() ==> self.buf@[j as int] is None,
                all_init(grown, 0, len as int),
                all_uninit(grown, len as int, grown.len() as int),
                len <= grown.len(),
                forall|k: int| 0 <= k < j ==> self.buf@[k] == grown[k],
                forall|k: int| j < k <= len ==> self.buf@[k] == grown[k - 1],
                all_uninit(self.buf@, len + 1, self.buf@.len() as int),
            decreases j,
        {
            let ghost before = self.buf@;
            assert(self.buf@[j - 1] == grown[j - 1]);
            let moved = self.buf.read(j - 1);
            self.buf.write(j, moved);
            j = j - 1;
            assert forall|k: int| j < k <= len implies self.buf@[k] == grown[k - 1] by {
                if k > j + 1 {
                    assert(self.buf@[k] == before[k]);
                }
            }
            assert forall|k: int| 0 <= k < j implies self.buf@[k] == grown[k] by {
                assert(self.buf@[k] == before[k]);
            }
            assert forall|k: int| len + 1 <= k < self.buf@.len() implies self.buf@[k] is None by {
                assert(self.buf@[k] == before[k]);
            }
        }
        assert forall|k: int| 0 <= k < index implies self.buf@[k] is Some by {
            assert(self.buf@[k] == grown[k]);
        }
        assert forall|k: int| index < k <= len implies self.buf@[k] is Some by {
            assert(self.buf@[k] == grown[k - 1]);
        }
        let ghost shifted = self.buf@;
        self.buf.write(index, elem);
        assert forall|k: int| 0 <= k < self.buf@.len() && k != index implies self.buf@[k]
            == shifted[k] by {}
        self.len = len + 1;
        assert(self@ =~= old(self)@.insert(index as int, elem));
    }

    /// Removes and returns the element at `index`; the elements after it
    /// shift one position to the left.
    pub fn remove(&mut self, index: usize) -> (r: T)
        requires
            old(self).wf(),
            index < old(self)@.len(),
        ensures
            final(self).wf(),
            final(self).spec_capacity() == old(self).spec_capacity(),
            r == old(self)@[index as int],
            final(self)@ == old(self)@.remove(index as int),
    {
        proof { self.lemma_wf_len(); }
        let ghost start = self.buf@;
        self.len = self.len - 1;
        let len = self.len;
        let result = self.buf.read(index);
        let mut j = index;
        while j < len
            invariant
                self.buf.wf(),
                self.buf.spec_capacity() == old(self).spec_capacity(),
                self.len == len,
                len + 1 <= start.len(),
                self.buf@.len() == start.len(),
                index <= j <= len,
                self.buf@[j as int] is None,
                all_init(start, 0, len + 1),
                all_uninit(start, len + 1, start.len() as int),
                forall|k: int| 0 <= k < index ==> self.buf@[k] == start[k],
                forall|k: int| index <= k < j ==> self.buf@[k] == start[k + 1],
                forall|k: int| j < k < self.buf@.len() ==> self.buf@[k] == start[k],
            decreases len - j,
        {
            assert(self.buf@[j + 1] == start[j + 1]);
            let moved = self.buf.read(j + 1);
            self.buf.write(j, moved);
            j = j + 1;
        }
        assert forall|k: int| 0 <= k < len implies self.buf@[k] is Some by {
            if k < index {
                assert(self.buf@[k] == start[k]);
            } else {
                assert(self.buf@[k] == start[k + 1]);
            }
        }
        assert forall|k: int| len <= k < self.buf@.len() implies self.buf@[k] is None by {
            if k > len {
                assert(self.buf@[k] == start[k]);
            }
        }
        assert(self@ =~= old(self)@.remove(index as int));
        result
    }

    /// Borrows the element at `index`, or returns `None` past the end.
    pub fn get(&self, index: usize) -> (r: Option<&T>)
        requires
            self.wf(),
        ensures
            index < self@.len() ==> r == Some(&self@[index as int]),
            index >= self@.len() ==> r is None,
    {
        proof { self.lemma_wf_len(); }
        if index < self.len {
            self.buf.get(index)
        } else {
            None
        }
    }

    /// Borrows the first element, or returns `None` if there is none.
    pub fn first(&self) -> (r: Option<&T>)
        requires
            self.wf(),
        ensures
            self@.len() > 0 ==> r == Some(&self@[0]),
            self@.len() == 0 ==> r is None,
    {
        self.get(0)
    }

    /// Exchanges the elements at positions `a` and `b`.
    pub fn swap(&mut self, a: usize, b: usize)
        requires
            old(self).wf(),
            a < old(self)@.len(),
            b < old(self)@.len(),
        ensures
            final(self).wf(),
            final(self).spec_capacity() == old(self).spec_capacity(),
            final(self)@ == old(self)@.update(a as int, old(self)@[b as int]).update(
                b as int,
                old(self)@[a as int],
            ),
    {
        proof { self.lemma_wf_len(); }
        if a != b {
            let va = self.buf.read(a);
            let vb = self.buf.read(b);
            self.buf.write(a, vb);
            self.buf.write(b, va);
        }
        assert(self@ =~= old(self)@.update(a as int, old(self)@[b as int]).update(
            b as int,
            old(self)@[a as int],
        ));
    }

    /// Reverses the order of the elements in place.
    pub fn reverse(&mut self)
        requires
            old(self).wf(),
        ensures
            final(self).wf(),
            final(self).spec_capacity() == old(self).spec_capacity(),
            final(self)@ == old(self)@.reverse(),
    {
        proof { self.lemma_wf_len(); }
        let n = self.len;
        let mut i: usize = 0;
        while i < n / 2
            invariant
                self.wf(),
                self.spec_capacity() == old(self).spec_capacity(),
                self@.len() == n,
                old(self)@.len() == n,
                i <= n / 2,
                forall|k: int| 0 <= k < i ==> self@[k] == old(self)@[n - 1 - k],
                forall|k: int| n - i <= k < n ==> self@[k] == old(self)@[n - 1 - k],
                forall|k: int| i <= k < n - i ==> self@[k] == old(self)@[k],
            decreases n / 2 - i,
        {
            proof { self.lemma_wf_len(); }
            self.swap(i, n - 1 - i);
            i = i + 1;
        }
        assert(self@ =~= old(self)@.reverse());
    }

    /// Turns the array into an iterator that yields its elements by value.
    /// The buffer moves into the iterator as it is: nothing is copied.
    pub fn into_iter(self) -> (r: IntoIter<T>)
        requires
            self.wf(),
        ensures
            r.wf(),
            r@ == self@,
    {
        let iter = RawValIter::new(0, self.len);
        IntoIter::new(self.buf, iter)
    }

    /// Cuts the array down to its first `start` elements at once and returns
    /// an iterator over the elements that were cut off.
    ///
    /// The suffix must not be empty: `start` must be less than the length.
    pub fn drain(&mut self, start: usize) -> (r: Drain<T>)
        requires
            old(self).wf(),
            start < old(self)@.len(),
        ensures
            final(self).wf(),
            final(self).spec_capacity() == old(self).spec_capacity(),
            final(self)@ == old(self)@.subrange(0, start as int),
            r.wf(),
            r@ == old(self)@.subrange(start as int, old(self)@.len() as int),
    {
        proof { self.lemma_wf_len(); }
        let ghost start_slots = self.buf@;
        let old_len = self.len;
        self.len = start;
        let mut block: OwnedPtr<T> = OwnedPtr::empty();
        let mut i = start;
        while i < old_len
            invariant
                self.buf.wf(),
                self.buf.spec_capacity() == old(self).spec_capacity(),
                self.len == start,
                start <= i <= old_len,
                old_len <= start_slots.len(),
                self.buf@.len() == start_slots.len(),
                all_init(start_slots, 0, old_len as int),
                all_uninit(start_slots, old_len as int, start_slots.len() as int),
                forall|k: int| 0 <= k < start || i <= k < start_slots.len() ==> self.buf@[k]
                    == start_slots[k],
                all_uninit(self.buf@, start as int, i as int),
                block@.len() == i - start,
                forall|k: int| 0 <= k < i - start ==> block@[k] == start_slots[start + k],
            decreases old_len - i,
        {
            assert(self.buf@[i as int] == start_slots[i as int]);
            let moved = self.buf.read(i);
            block.write(i - start, moved);
            i = i + 1;
        }
        assert forall|k: int| 0 <= k < start implies self.buf@[k] is Some by {
            assert(self.buf@[k] == start_slots[k]);
        }
        assert forall|k: int| start <= k < self.buf@.len() implies self.buf@[k] is None by {
            if k >= old_len {
                assert(self.buf@[k] == start_slots[k]);
            }
        }
        let iter = RawValIter::new(0, old_len - start);
        assert(iter.remaining(block@) =~= old(self)@.subrange(start as int, old_len as int));
        assert(self@ =~= old(self)@.subrange(0, start as int));
        Drain::new(block, iter)
    }
}

/// Pushing `n` elements onto an empty array of a sized element type leaves
/// it holding exactly those elements, and its capacity runs through
/// 0, 1, 2, 4, 8, ...: it doubles only when a push finds the array full, so
/// after the pushes it is the least power of two that is at least `n`.
pub proof fn lemma_push_sequence<T>(s: Seq<T>)
    ensures
        pushed_all(s) == s,
        pushed_all(s).len() == s.len(),
        s.len() == 0 ==> capacity_after_pushes(s.len()) == 0,
        s.len() > 0 ==> {
            &&& is_power_of_two(capacity_after_pushes(s.len()))
            &&& s.len() <= capacity_after_pushes(s.len()) < 2 * s.len()
        },
    decreases s.len(),
{
    if s.len() > 0 {
        lemma_push_sequence(s.drop_last());
        assert(s.drop_last().push(s.last()) =~= s);
    }
    lemma_capacity_after_pushes(s.len());
}

proof fn lemma_capacity_after_pushes(n: nat)
    ensures
        n == 0 ==> capacity_after_pushes(n) == 0,
        n > 0 ==> {
            &&& is_power_of_two(capacity_after_pushes(n))
            &&& n <= capacity_after_pushes(n) < 2 * n
        },
    decreases n,
{
    if n > 0 {
        let c = capacity_after_pushes((n - 1) as nat);
        lemma_capacity_after_pushes((n - 1) as nat);
        if c == n - 1 && c > 0 {
            assert((2 * c) / 2 == c);
            assert(is_power_of_two(2 * c));
        }
    }
}

/// Popping from an array built by pushing `s` gives the pushed elements back
/// last first, one per call, each call shortening the array by one; once
/// all are back, `pop` returns nothing.
pub proof fn lemma_pop_reverses_pushes<T>(s: Seq<T>)
    ensures
        forall|i: nat| #![trigger after_pops(pushed_all(s), i)]
            i < s.len() ==> {
                &&& pop_result(after_pops(pushed_all(s), i)) == Some(s[s.len() - 1 - i])
                &&& after_pops(pushed_all(s), i).len() == s.len() - i
            },
        pop_result(after_pops(pushed_all(s), s.len())) == None::<T>,
{
    lemma_push_sequence(s);
    assert forall|i: nat| i <= s.len() implies #[trigger] after_pops(s, i) == s.subrange(
        0,
        s.len() - i,
    ) by {
        lemma_after_pops(s, i);
    }
}

proof fn lemma_after_pops<T>(v: Seq<T>, n: nat)
    requires
        n <= v.len(),
    ensures
        after_pops(v, n) == v.subrange(0, v.len() - n),
    decreases n,
{
    if n == 0 {
        assert(v.subrange(0, v.len() as int) =~= v);
    } else {
        lemma_after_pops(v.drop_last(), (n - 1) as nat);
        assert(v.drop_last().subrange(0, v.drop_last().len() - (n - 1)) =~= v.subrange(
            0,
            v.len() - n,
        ));
    }
}

/// An array of a zero-sized element type never asks its buffer to grow:
/// its capacity is the unbounded sentinel `usize::MAX` in every state, a
/// push or an insert can proceed whenever the length is below that, and
/// leaves the capacity where it was.
pub proof fn lemma_zero_sized_never_grows<T>(v: &Vec<T>)
    requires
        v.wf(),
        size_of::<T>() == 0,
    ensures
        v.spec_capacity() == usize::MAX,
        !growth_fits::<T>(v.spec_capacity() as nat),
        v.can_add() <==> v@.len() < usize::MAX,
        v@.len() < usize::MAX ==> capacity_after_add(v@.len(), v.spec_capacity() as nat)
            == usize::MAX,
{
    v.lemma_wf_len();
}

} // verus!
