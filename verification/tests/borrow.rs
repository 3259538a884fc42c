use xanadu::collections::TypeErasedSparseVec;
use xanadu::ecs::{BorrowError, BorrowLocks, BorrowState, Components, World};

#[test]
fn writer_excludes_everyone() {
    let mut lock = BorrowState::Free;
    assert!(lock.borrow_exclusive());
    assert_eq!(lock, BorrowState::Exclusive);
    assert!(!lock.borrow_exclusive());
    assert!(!lock.borrow_shared());
    assert_eq!(lock, BorrowState::Exclusive);
    lock.release_exclusive();
    assert_eq!(lock, BorrowState::Free);
    assert!(lock.borrow_shared());
}

#[test]
fn readers_are_counted_and_exclude_a_writer() {
    let mut lock = BorrowState::Free;
    assert!(lock.borrow_shared());
    assert_eq!(lock, BorrowState::Shared(1));
    assert!(lock.borrow_shared());
    assert_eq!(lock, BorrowState::Shared(2));
    assert!(!lock.borrow_exclusive());
    assert_eq!(lock, BorrowState::Shared(2));
    lock.release_shared();
    assert_eq!(lock, BorrowState::Shared(1));
    assert!(!lock.borrow_exclusive());
    lock.release_shared();
    assert_eq!(lock, BorrowState::Free);
    assert!(lock.borrow_exclusive());
}

#[test]
fn reader_count_has_a_limit() {
    let mut lock = BorrowState::Shared(usize::MAX);
    assert!(!lock.borrow_shared());
    assert_eq!(lock, BorrowState::Shared(usize::MAX));
    lock.release_shared();
    assert_eq!(lock, BorrowState::Shared(usize::MAX - 1));
    assert!(lock.borrow_shared());
}

#[test]
fn release_on_a_lock_not_held_changes_nothing() {
    let mut lock = BorrowState::Free;
    lock.release_shared();
    lock.release_exclusive();
    assert_eq!(lock, BorrowState::Free);
    let mut lock = BorrowState::Exclusive;
    lock.release_shared();
    assert_eq!(lock, BorrowState::Exclusive);
    let mut lock = BorrowState::Shared(3);
    lock.release_exclusive();
    assert_eq!(lock, BorrowState::Shared(3));
}

#[test]
fn locks_of_distinct_columns_are_independent() {
    let mut locks = BorrowLocks::new(3);
    assert!(locks.borrow_exclusive(0));
    assert!(locks.borrow_exclusive(2));
    assert!(!locks.borrow_exclusive(0));
    assert!(!locks.borrow_shared(2));
    assert!(locks.borrow_shared(1));
    assert!(locks.borrow_shared(1));
    assert!(!locks.borrow_exclusive(1));
}

#[test]
fn table_finds_columns_by_key() {
    let mut components: Components<TypeErasedSparseVec> = Components::new();
    assert!(components.is_empty());
    assert_eq!(components.find(0), None);
    components.register::<u64>();
    components.register::<i32>();
    assert_eq!(components.len(), 2);
    assert_eq!(components.find(3), Some(0));
    assert_eq!(components.find(0), Some(1));
    assert_eq!(components.find(1), None);
    components.borrow_mut::<i32>().unwrap().replace(1, -1);
    components.register::<i32>();
    assert_eq!(components.len(), 2);
    assert_eq!(components.borrow_slice::<i32>().unwrap().len(), 0);
    assert_eq!(components.borrow_slice::<u64>().unwrap().len(), 0);
}

#[test]
fn pair_borrows_on_the_table() {
    let mut world =
        World::builder().register_component::<i32>().register_component::<u64>().build();
    let entity = world.new_entity();
    world.attach_component(entity, -5i32);
    world.attach_component(entity, 5u64);
    {
        let (ints, longs) = world.components.borrow_slices::<i32, u64>().ok().unwrap();
        assert_eq!(ints, &[Some(-5)]);
        assert_eq!(longs, &[Some(5)]);
    }
    {
        let (a, b) = world.components.borrow_slices::<i32, i32>().ok().unwrap();
        assert_eq!(a, b);
    }
    {
        let (longs, ints) = world.components.borrow_mut_slices::<u64, i32>().ok().unwrap();
        longs[0] = Some(6);
        ints[0] = None;
    }
    assert_eq!(world.get_component::<u64>(entity), Some(&6));
    assert_eq!(world.get_component::<i32>(entity), None);
    assert_eq!(
        world.components.borrow_mut_slices::<i32, i32>().err(),
        Some(BorrowError::AlreadyBorrowed)
    );
    assert_eq!(
        world.components.borrow_slices::<i32, i64>().err(),
        Some(BorrowError::NotRegistered)
    );
    assert_eq!(
        world.components.borrow_mut_slices::<i64, i64>().err(),
        Some(BorrowError::NotRegistered)
    );
    assert!(world.components.borrow_mut_slice::<i64>().is_none());
    assert_eq!(world.components.borrow_mut_slice::<u64>().unwrap().len(), 1);
}
