use nomicon_vec::vec::Vec;

#[test]
fn zst() {
    let mut v = Vec::default();
    assert_eq!(v.len(), 0);

    v.push(());
    assert_eq!(v.len(), 1);
    assert_eq!(v.pop(), Some(()));

    v.insert(0, ());
    assert_eq!(v.len(), 1);
    assert_eq!(v.remove(0), ());
}

#[test]
fn deref_slice() {
    let mut v: Vec<i32> = Vec::default();
    assert!(v.is_empty());

    v.push(0);
    assert_eq!(v.first(), Some(&0));
}

#[test]
fn deref_mut_slice() {
    let mut v: Vec<i32> = Vec::default();

    v.push(0);
    v.push(1);
    v.reverse();

    assert_eq!(v.pop(), Some(0));
    assert_eq!(v.pop(), Some(1));
}

#[test]
fn push_then_len() {
    let mut v = Vec::default();

    v.push(0);
    assert_eq!(v.len(), 1);

    v.push(1);
    assert_eq!(v.len(), 2);
}

#[test]
fn pop_examples() {
    let mut v = Vec::default();
    assert!(v.pop().is_none());

    v.push(0);
    assert_eq!(v.pop(), Some(0));

    v.push(0);
    v.push(1);
    assert_eq!(v.pop(), Some(1));
    assert_eq!(v.pop(), Some(0));
    assert_eq!(v.len(), 0);

    assert!(v.pop().is_none());
}

#[test]
fn insert_in_the_middle() {
    let mut v = Vec::default();
    v.push(0);
    v.push(1);
    v.insert(1, 2);

    assert_eq!(v.len(), 3);
    assert_eq!(v.get(0), Some(&0));
    assert_eq!(v.get(1), Some(&2));
    assert_eq!(v.get(2), Some(&1));
}

#[test]
fn remove_in_the_middle() {
    let mut v = Vec::default();
    v.push(0);
    v.push(1);
    v.push(2);

    assert_eq!(v.remove(1), 1);
    assert_eq!(v.len(), 2);
    assert_eq!(v.get(0), Some(&0));
    assert_eq!(v.get(1), Some(&2));
}

#[test]
fn insert_at_both_ends_and_grow() {
    let mut v = Vec::default();
    v.insert(0, 10);
    assert_eq!(v.capacity(), 1);
    v.insert(0, 5);
    assert_eq!(v.capacity(), 2);
    v.insert(2, 20);
    assert_eq!(v.capacity(), 4);

    assert_eq!(v.len(), 3);
    assert_eq!(v.get(0), Some(&5));
    assert_eq!(v.get(1), Some(&10));
    assert_eq!(v.get(2), Some(&20));
    assert_eq!(v.get(3), None);
}

#[test]
fn remove_first_and_last() {
    let mut v = Vec::default();
    for i in 0..5 {
        v.push(i);
    }
    assert_eq!(v.remove(0), 0);
    assert_eq!(v.remove(3), 4);
    assert_eq!(v.len(), 3);
    assert_eq!(v.capacity(), 8);
    assert_eq!(v.get(0), Some(&1));
    assert_eq!(v.get(1), Some(&2));
    assert_eq!(v.get(2), Some(&3));
}

#[test]
fn swap_and_reverse() {
    let mut v = Vec::default();
    for i in 0..5 {
        v.push(i);
    }
    v.swap(0, 4);
    assert_eq!(v.first(), Some(&4));
    assert_eq!(v.get(4), Some(&0));
    v.swap(2, 2);
    assert_eq!(v.get(2), Some(&2));

    v.reverse();
    assert_eq!(v.get(0), Some(&0));
    assert_eq!(v.get(1), Some(&3));
    assert_eq!(v.get(2), Some(&2));
    assert_eq!(v.get(3), Some(&1));
    assert_eq!(v.get(4), Some(&4));
}

#[test]
fn empty_array_observers() {
    let v: Vec<u64> = Vec::default();
    assert_eq!(v.len(), 0);
    assert!(v.is_empty());
    assert_eq!(v.capacity(), 0);
    assert_eq!(v.first(), None);
    assert_eq!(v.get(0), None);
}
