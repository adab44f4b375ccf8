use nomicon_vec::vec::Vec;

#[test]
fn into_iter_next() {
    let mut v = Vec::default();
    v.push(0);
    v.push(1);

    let mut iter = v.into_iter();
    assert_eq!(iter.next(), Some(0));
    assert_eq!(iter.next(), Some(1));
    assert_eq!(iter.next(), None);
}

#[test]
fn into_iter_size_hint() {
    {
        let v: Vec<i32> = Vec::default();
        assert_eq!(v.into_iter().size_hint(), (0, Some(0)));
    }

    {
        let mut v: Vec<i32> = Vec::default();
        v.push(0);
        assert_eq!(v.into_iter().size_hint(), (1, Some(1)));
    }

    {
        let mut v: Vec<i32> = Vec::default();
        v.push(0);
        v.push(1);
        assert_eq!(v.into_iter().size_hint(), (2, Some(2)));
    }
}

#[test]
fn into_iter_next_back() {
    let mut v = Vec::default();
    v.push(0);
    v.push(1);

    let mut iter = v.into_iter();
    assert_eq!(iter.next_back(), Some(1));
    assert_eq!(iter.next_back(), Some(0));
    assert_eq!(iter.next_back(), None);
}

#[test]
fn into_iter_next_next_back() {
    let mut v = Vec::default();
    v.push(0);
    v.push(1);
    v.push(2);

    let mut iter = v.into_iter();
    assert_eq!(iter.next(), Some(0));
    assert_eq!(iter.next_back(), Some(2));
    assert_eq!(iter.next(), Some(1));
    assert_eq!(iter.next_back(), None);
    assert_eq!(iter.next(), None);
}

#[test]
fn into_iter_size_hint_shrinks() {
    let mut v = Vec::default();
    v.push('a');
    v.push('b');
    v.push('c');

    let mut iter = v.into_iter();
    assert_eq!(iter.next_back(), Some('c'));
    assert_eq!(iter.size_hint(), (2, Some(2)));
    assert_eq!(iter.next(), Some('a'));
    assert_eq!(iter.size_hint(), (1, Some(1)));
}
