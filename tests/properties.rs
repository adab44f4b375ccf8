use std::cell::Cell;
use std::rc::Rc;

use nomicon_vec::vec::Vec;

struct Counted {
    drops: Rc<Cell<usize>>,
}

impl Drop for Counted {
    fn drop(&mut self) {
        self.drops.set(self.drops.get() + 1);
    }
}

#[test]
fn pushes_set_length_and_double_capacity() {
    let mut v: Vec<u32> = Vec::default();
    assert_eq!(v.len(), 0);
    assert_eq!(v.capacity(), 0);

    let expected = [1, 2, 4, 4, 8, 8, 8, 8, 16, 16];
    for (n, cap) in expected.iter().enumerate() {
        v.push(n as u32);
        assert_eq!(v.len(), n + 1);
        assert_eq!(v.capacity(), *cap);
    }
}

#[test]
fn pops_return_pushed_values_in_reverse() {
    let mut v = Vec::default();
    for x in [3, 1, 4, 1, 5] {
        v.push(x);
    }
    for (i, x) in [5, 1, 4, 1, 3].iter().enumerate() {
        assert_eq!(v.pop(), Some(*x));
        assert_eq!(v.len(), 4 - i);
    }
    assert_eq!(v.pop(), None);
    assert_eq!(v.len(), 0);
}

#[test]
fn insert_and_remove_at_one() {
    let mut v = Vec::default();
    v.push(0);
    v.push(1);
    v.insert(1, 9);
    assert_eq!(v.len(), 3);
    assert_eq!(v.get(0), Some(&0));
    assert_eq!(v.get(1), Some(&9));
    assert_eq!(v.get(2), Some(&1));

    let mut w = Vec::default();
    w.push(0);
    w.push(1);
    w.push(2);
    assert_eq!(w.remove(1), 1);
    assert_eq!(w.len(), 2);
    assert_eq!(w.get(0), Some(&0));
    assert_eq!(w.get(1), Some(&2));
}

#[test]
fn zero_sized_elements_never_grow() {
    let mut v: Vec<()> = Vec::default();
    assert_eq!(v.capacity(), usize::MAX);
    for _ in 0..100 {
        v.push(());
    }
    v.insert(50, ());
    assert_eq!(v.len(), 101);
    assert_eq!(v.remove(0), ());
    assert_eq!(v.pop(), Some(()));
    assert_eq!(v.len(), 99);
    assert_eq!(v.capacity(), usize::MAX);
}

#[test]
fn consuming_iteration_in_every_order() {
    let build = || {
        let mut v = Vec::default();
        v.push(0);
        v.push(1);
        v.push(2);
        v
    };

    let mut forward = build().into_iter();
    assert_eq!(forward.next(), Some(0));
    assert_eq!(forward.next(), Some(1));
    assert_eq!(forward.next(), Some(2));
    assert_eq!(forward.next(), None);

    let mut backward = build().into_iter();
    assert_eq!(backward.next_back(), Some(2));
    assert_eq!(backward.next_back(), Some(1));
    assert_eq!(backward.next_back(), Some(0));
    assert_eq!(backward.next_back(), None);

    let mut mixed = build().into_iter();
    assert_eq!(mixed.next(), Some(0));
    assert_eq!(mixed.next_back(), Some(2));
    assert_eq!(mixed.next(), Some(1));
    assert_eq!(mixed.next_back(), None);
    assert_eq!(mixed.next(), None);
}

#[test]
fn drain_shortens_before_any_step() {
    let mut v = Vec::default();
    v.push(0);
    v.push(1);
    let drain = v.drain(0);
    assert_eq!(drain.size_hint(), (2, Some(2)));
    drop(drain);
    assert_eq!(v.len(), 0);
    assert!(v.is_empty());
}

#[test]
fn drain_back_then_consume_rest() {
    let mut v = Vec::default();
    v.push(0);
    v.push(1);
    {
        let mut drain = v.drain(1);
        assert_eq!(drain.next_back(), Some(1));
        assert_eq!(drain.next_back(), None);
    }
    let mut iter = v.into_iter();
    assert_eq!(iter.next(), Some(0));
    assert_eq!(iter.next(), None);
}

#[test]
fn partly_consumed_drain_cleans_up_the_rest() {
    let drops = Rc::new(Cell::new(0));
    let mut v = Vec::default();
    for _ in 0..5 {
        v.push(Counted { drops: drops.clone() });
    }
    {
        let mut drain = v.drain(1);
        let first = drain.next();
        assert!(first.is_some());
        drop(first);
        assert_eq!(drops.get(), 1);
    }
    assert_eq!(drops.get(), 4);
    assert_eq!(v.len(), 1);
    drop(v);
    assert_eq!(drops.get(), 5);
}

#[test]
fn abandoned_consuming_iterator_cleans_up() {
    let drops = Rc::new(Cell::new(0));
    let mut v = Vec::default();
    for _ in 0..3 {
        v.push(Counted { drops: drops.clone() });
    }
    let mut iter = v.into_iter();
    drop(iter.next_back());
    assert_eq!(drops.get(), 1);
    drop(iter);
    assert_eq!(drops.get(), 3);
}
