use hmclauncher::heap::HeapVec;

#[test]
fn push_and_iterate_in_order() {
    let mut items: HeapVec<u32> = HeapVec::new();
    assert!(items.is_empty());
    assert!(items.push(3));
    assert!(items.push(1));
    assert!(!items.is_empty());
    assert_eq!(items.as_slice(), &[3, 1]);
    assert_eq!(items.iter().copied().collect::<Vec<_>>(), vec![3, 1]);
    assert!(items.reserve(10));
    assert!(!items.reserve(usize::MAX));
    assert_eq!(items.as_slice(), &[3, 1]);
}

#[test]
fn sort_by_sorts_and_keeps_elements() {
    let mut items: HeapVec<(u32, char)> = HeapVec::new();
    for value in [(5, 'a'), (1, 'b'), (5, 'c'), (0, 'd'), (3, 'e')] {
        items.push(value);
    }
    items.sort_by(|a, b| a.0.cmp(&b.0));
    assert_eq!(items.as_slice(), &[(0, 'd'), (1, 'b'), (3, 'e'), (5, 'a'), (5, 'c')]);
}

#[test]
fn as_mut_slice_writes_through() {
    let mut items: HeapVec<u8> = HeapVec::new();
    items.push(1);
    items.push(2);
    items.as_mut_slice()[1] = 9;
    assert_eq!(items.as_slice(), &[1, 9]);
}

#[test]
fn reserve_refuses_sizes_whose_bytes_overflow() {
    let mut items: HeapVec<u64> = HeapVec::new();
    assert!(items.push(7));
    assert!(!items.reserve(usize::MAX / 4));
    assert_eq!(items.as_slice(), &[7]);
    assert!(items.push(8));
    assert_eq!(items.as_slice(), &[7, 8]);
}

#[test]
fn zero_sized_elements_never_need_room() {
    let mut items: HeapVec<()> = HeapVec::new();
    assert!(items.reserve(usize::MAX));
    for _ in 0..5 {
        assert!(items.push(()));
    }
    assert_eq!(items.as_slice().len(), 5);
}

#[test]
fn sorting_sorted_elements_changes_nothing() {
    let mut items: HeapVec<(u32, char)> = HeapVec::new();
    for value in [(1, 'x'), (2, 'b'), (2, 'a'), (7, 'q')] {
        items.push(value);
    }
    items.sort_by(|a, b| a.0.cmp(&b.0));
    assert_eq!(items.as_slice(), &[(1, 'x'), (2, 'b'), (2, 'a'), (7, 'q')]);
    items.sort_by(|a, b| a.0.cmp(&b.0));
    assert_eq!(items.as_slice(), &[(1, 'x'), (2, 'b'), (2, 'a'), (7, 'q')]);
}

#[test]
fn zero_sized_pushes_after_reserve_succeed() {
    let mut items: HeapVec<()> = HeapVec::new();
    assert!(items.push(()));
    assert!(items.reserve(3));
    for _ in 0..3 {
        assert!(items.push(()));
    }
    items.sort_by(|_, _| core::cmp::Ordering::Equal);
    assert!(items.push(()));
    assert_eq!(items.as_slice().len(), 5);
}
