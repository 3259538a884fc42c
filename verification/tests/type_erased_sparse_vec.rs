use xanadu::collections::{SparseVec, TypeErasedSparseVec};
use xanadu::ecs::ErasedColumn;

#[test]
fn type_erased_sparse_vec_downcast() {
    let array = SparseVec::<i32>::new();
    let any_array = TypeErasedSparseVec::from(array);
    assert!(any_array.downcast::<i32>().is_some());
    assert!(any_array.downcast::<u32>().is_none());
}

#[test]
fn type_erased_sparse_vec_downcast_mut() {
    let array = SparseVec::<i32>::new();
    let mut any_array = TypeErasedSparseVec::from(array);
    assert!(any_array.downcast_mut::<i32>().is_some());
    assert!(any_array.downcast_mut::<u32>().is_none());
}

#[test]
fn erasing_keeps_the_column() {
    let mut array = SparseVec::<u64>::new();
    array.replace(2, 9);
    let mut any_array = TypeErasedSparseVec::from(array);
    assert_eq!(any_array.downcast::<u64>().unwrap().data_slice(), &[None, None, Some(9)]);
    any_array.downcast_mut::<u64>().unwrap().replace(0, 1);
    assert_eq!(any_array.downcast::<u64>().unwrap().data_slice(), &[Some(1), None, Some(9)]);
    assert!(any_array.downcast::<i64>().is_none());
    assert!(any_array.downcast::<i32>().is_none());
}

#[test]
fn remove_slot_needs_no_type() {
    let mut array = SparseVec::<i64>::new();
    array.replace(0, -1);
    array.replace(1, -2);
    let mut any_array = TypeErasedSparseVec::from(array);
    any_array.remove_slot(0);
    any_array.remove_slot(7);
    assert_eq!(any_array.downcast::<i64>().unwrap().data_slice(), &[None, Some(-2)]);
}
