use xanadu::collections::SparseVec;

#[test]
fn sparse_vec_replace() {
    let mut array = SparseVec::new();
    array.replace(0, 42);
    assert_eq!(array.data_slice().len(), 1);
    assert_eq!(array.data_slice()[0], Some(42));
}

#[test]
fn sparse_vec_replace_offset() {
    let mut array = SparseVec::new();
    array.replace(0, 42);
    array.replace(2, 43);
    assert_eq!(array.data_slice().len(), 3);
    assert_eq!(array.data_slice()[0], Some(42));
    assert_eq!(array.data_slice()[1], None);
    assert_eq!(array.data_slice()[2], Some(43));
}

#[test]
fn sparse_vec_replace_return_value() {
    let mut array = SparseVec::new();
    assert_eq!(array.replace(0, 42), None);
    assert_eq!(array.replace(0, 43), Some(42));
}

#[test]
fn writing_on_an_empty_column_grows_it_to_the_index() {
    let mut array = SparseVec::new();
    assert_eq!(array.replace(5, 'x'), None);
    assert_eq!(array.data_slice().len(), 6);
    assert_eq!(array.data_slice(), &[None, None, None, None, None, Some('x')]);
    assert_eq!(array.replace(2, 'y'), None);
    assert_eq!(array.data_slice().len(), 6);
}

#[test]
fn get_checks_bounds_and_holes() {
    let mut array = SparseVec::new();
    array.replace(1, 7);
    assert_eq!(array.get(0), None);
    assert_eq!(array.get(1), Some(&7));
    assert_eq!(array.get(2), None);
    assert_eq!(array.get(usize::MAX), None);
}

#[test]
fn get_mut_writes_in_place() {
    let mut array = SparseVec::new();
    array.replace(1, 7);
    assert_eq!(array.get_mut(0), None);
    assert_eq!(array.get_mut(9), None);
    *array.get_mut(1).unwrap() = 8;
    assert_eq!(array.data_slice(), &[None, Some(8)]);
}

#[test]
fn remove_clears_the_slot_and_keeps_the_length() {
    let mut array = SparseVec::new();
    array.replace(0, 1);
    array.replace(1, 2);
    assert_eq!(array.remove(1), Some(2));
    assert_eq!(array.remove(1), None);
    assert_eq!(array.remove(5), None);
    assert_eq!(array.data_slice(), &[Some(1), None]);
}

#[test]
fn iter_yields_occupied_slots_in_ascending_order() {
    let mut array = SparseVec::new();
    array.replace(4, 40);
    array.replace(1, 10);
    array.replace(2, 20);
    let mut iter = array.iter();
    assert_eq!(iter.next(), Some(&10));
    assert_eq!(iter.next(), Some(&20));
    assert_eq!(iter.next(), Some(&40));
    assert_eq!(iter.next(), None);
    assert_eq!(iter.next(), None);
}

#[test]
fn iter_mut_writes_every_occupied_slot() {
    let mut array = SparseVec::new();
    array.replace(3, 30);
    array.replace(0, 1);
    let mut iter = array.iter_mut();
    while let Some(value) = iter.next() {
        *value += 1;
    }
    assert_eq!(iter.next(), None);
    assert_eq!(array.data_slice(), &[Some(2), None, None, Some(31)]);
}

#[test]
fn iterators_over_an_empty_column_yield_nothing() {
    let mut array: SparseVec<u8> = SparseVec::default();
    assert_eq!(array.iter().next(), None);
    assert_eq!(array.iter_mut().next(), None);
    assert_eq!(array.data_mut_slice().len(), 0);
}
