use std::collections::BTreeMap;
use xanadu::collections::{SparseVec, TypeErasedSparseVec};
use xanadu::ecs::{
    BorrowError, Component, ErasedColumn, FromWorld, PairComponentsRefIter,
    PairComponentsRefIterMut, SingleComponentExclusiveIter, SingleComponentExclusiveIterMut,
    SingleComponentRefIter, SingleComponentRefIterMut, World,
};

#[derive(Debug, Clone, Copy, PartialEq)]
struct Position {
    x: i64,
    y: i64,
    z: i64,
}

#[derive(Debug, Clone, Copy, PartialEq)]
struct Velocity {
    x: i64,
    y: i64,
    z: i64,
}

enum Columns {
    Position(SparseVec<Position>),
    Velocity(SparseVec<Velocity>),
}

impl ErasedColumn for Columns {
    fn remove_slot(&mut self, index: usize) {
        match self {
            Columns::Position(column) => {
                column.remove(index);
            }
            Columns::Velocity(column) => {
                column.remove(index);
            }
        }
    }
}

impl Component for Position {
    type Erased = Columns;

    fn type_key() -> u64 {
        1
    }

    fn erase(column: SparseVec<Position>) -> Columns {
        Columns::Position(column)
    }

    fn downcast(erased: &Columns) -> Option<&SparseVec<Position>> {
        match erased {
            Columns::Position(column) => Some(column),
            _ => None,
        }
    }

    fn downcast_mut(erased: &mut Columns) -> Option<&mut SparseVec<Position>> {
        match erased {
            Columns::Position(column) => Some(column),
            _ => None,
        }
    }
}

impl Component for Velocity {
    type Erased = Columns;

    fn type_key() -> u64 {
        2
    }

    fn erase(column: SparseVec<Velocity>) -> Columns {
        Columns::Velocity(column)
    }

    fn downcast(erased: &Columns) -> Option<&SparseVec<Velocity>> {
        match erased {
            Columns::Velocity(column) => Some(column),
            _ => None,
        }
    }

    fn downcast_mut(erased: &mut Columns) -> Option<&mut SparseVec<Velocity>> {
        match erased {
            Columns::Velocity(column) => Some(column),
            _ => None,
        }
    }
}

fn shuffle_system(mut iter: SingleComponentExclusiveIterMut<'_, Position>) {
    while let Some(pos) = iter.next() {
        let tmp = pos.x;
        pos.x = pos.y;
        pos.y = pos.z;
        pos.z = tmp;
    }
}

fn increment_system(mut iter: SingleComponentExclusiveIterMut<'_, Position>) {
    while let Some(pos) = iter.next() {
        pos.x += 1;
        pos.y += 2;
        pos.z += 3;
    }
}

fn apply_velocity_system(mut iter: PairComponentsRefIterMut<'_, Position, Velocity>) {
    while let Some((pos, vel)) = iter.next() {
        pos.x += vel.x;
        pos.y += vel.y;
        pos.z += vel.z;
    }
}

fn positions(world: &mut World<Columns>) -> Vec<Position> {
    let mut iter = SingleComponentExclusiveIter::<Position>::from_world(world);
    let mut found = Vec::new();
    while let Some(pos) = iter.next() {
        found.push(*pos);
    }
    found
}

#[test]
fn swap_fields_then_add() {
    let mut world = World::builder().register_component::<Position>().build();
    let mut entities = Vec::new();
    for i in 0..5 {
        let entity = world.new_entity();
        assert_eq!(entity.index, i as usize);
        world.attach_component(entity, Position { x: i, y: i, z: i });
        entities.push(entity);
    }
    world.execute(shuffle_system);
    world.execute(increment_system);
    for (i, entity) in entities.iter().enumerate() {
        let i = i as i64;
        assert_eq!(
            world.get_component::<Position>(*entity),
            Some(&Position { x: i + 1, y: i + 2, z: i + 3 })
        );
    }
}

#[test]
fn swap_add_swap() {
    let mut world = World::builder().register_component::<Position>().build();
    for i in 0..5 {
        let entity = world.new_entity();
        world.attach_component(entity, Position { x: i, y: i, z: i });
    }
    world.execute(shuffle_system);
    world.execute(increment_system);
    world.execute(shuffle_system);
    let expected: Vec<Position> =
        (0..5).map(|i| Position { x: i + 2, y: i + 3, z: i + 1 }).collect();
    assert_eq!(positions(&mut world), expected);
}

#[test]
fn shuffle_rotates_distinct_fields() {
    let mut world = World::builder().register_component::<Position>().build();
    let entity = world.new_entity();
    world.attach_component(entity, Position { x: 1, y: 2, z: 3 });
    world.execute(shuffle_system);
    assert_eq!(world.get_component::<Position>(entity), Some(&Position { x: 2, y: 3, z: 1 }));
}

fn pair_world() -> World<Columns> {
    let mut world = World::builder()
        .register_component::<Position>()
        .register_component::<Velocity>()
        .build();
    for i in 0..5 {
        let entity = world.new_entity();
        world.attach_component(entity, Position { x: i, y: i, z: i });
    }
    for i in 0..3 {
        let entity = world.new_entity();
        world.attach_component(entity, Position { x: i, y: i, z: i });
        world.attach_component(entity, Velocity { x: 10 * i, y: 20 * i, z: 30 * i });
    }
    let entity = world.new_entity();
    world.attach_component(entity, Velocity { x: 7, y: 7, z: 7 });
    world
}

#[test]
fn pair_iterator_joins_on_slots_occupied_in_both() {
    let mut world = pair_world();
    let mut iter = PairComponentsRefIter::<Position, Velocity>::from_world(&mut world);
    let mut found = Vec::new();
    while let Some((pos, vel)) = iter.next() {
        found.push((*pos, *vel));
    }
    assert_eq!(
        found,
        vec![
            (Position { x: 0, y: 0, z: 0 }, Velocity { x: 0, y: 0, z: 0 }),
            (Position { x: 1, y: 1, z: 1 }, Velocity { x: 10, y: 20, z: 30 }),
            (Position { x: 2, y: 2, z: 2 }, Velocity { x: 20, y: 40, z: 60 }),
        ]
    );
    assert!(iter.next().is_none());
}

#[test]
fn pair_iterator_matches_intersection_of_maps() {
    let mut world = World::builder()
        .register_component::<Position>()
        .register_component::<Velocity>()
        .build();
    let mut positions_by_slot = BTreeMap::new();
    let mut velocities_by_slot = BTreeMap::new();
    for i in 0..40i64 {
        let entity = world.new_entity();
        if i % 3 != 0 {
            let pos = Position { x: i, y: 2 * i, z: 3 * i };
            world.attach_component(entity, pos);
            positions_by_slot.insert(entity.index, pos);
        }
        if (i / 4) % 2 == 0 {
            let vel = Velocity { x: -i, y: i, z: 0 };
            world.attach_component(entity, vel);
            velocities_by_slot.insert(entity.index, vel);
        }
    }
    let expected: Vec<(Position, Velocity)> = positions_by_slot
        .iter()
        .filter_map(|(slot, pos)| velocities_by_slot.get(slot).map(|vel| (*pos, *vel)))
        .collect();
    let mut iter = PairComponentsRefIter::<Position, Velocity>::from_world(&mut world);
    let mut found = Vec::new();
    while let Some((pos, vel)) = iter.next() {
        found.push((*pos, *vel));
    }
    assert!(!expected.is_empty());
    assert_eq!(found, expected);
}

#[test]
fn pair_system_writes_only_entities_with_both() {
    let mut world = pair_world();
    world.execute(apply_velocity_system);
    let expected = vec![
        Position { x: 0, y: 0, z: 0 },
        Position { x: 1, y: 1, z: 1 },
        Position { x: 2, y: 2, z: 2 },
        Position { x: 3, y: 3, z: 3 },
        Position { x: 4, y: 4, z: 4 },
        Position { x: 0, y: 0, z: 0 },
        Position { x: 11, y: 21, z: 31 },
        Position { x: 22, y: 42, z: 62 },
    ];
    assert_eq!(positions(&mut world), expected);
}

#[test]
fn exclusive_borrows_of_two_types_are_both_granted() {
    let mut world = pair_world();
    assert!(PairComponentsRefIterMut::<Position, Velocity>::try_from_world(&mut world).is_ok());
    assert!(PairComponentsRefIterMut::<Velocity, Position>::try_from_world(&mut world).is_ok());
    let (positions, velocities) =
        world.components.borrow_mut_slices::<Position, Velocity>().ok().unwrap();
    assert_eq!(positions.len(), 8);
    assert_eq!(velocities.len(), 9);
}

#[test]
fn second_exclusive_borrow_of_one_type_is_refused() {
    let mut world = pair_world();
    assert_eq!(
        PairComponentsRefIterMut::<Position, Position>::try_from_world(&mut world).err(),
        Some(BorrowError::AlreadyBorrowed)
    );
    assert_eq!(
        world.components.borrow_mut_slices::<Velocity, Velocity>().err(),
        Some(BorrowError::AlreadyBorrowed)
    );
}

#[test]
fn shared_borrows_of_one_type_are_both_granted() {
    let mut world = pair_world();
    let mut iter = PairComponentsRefIter::<Position, Position>::from_world(&mut world);
    let mut count = 0;
    while let Some((a, b)) = iter.next() {
        assert_eq!(a, b);
        count += 1;
    }
    assert_eq!(count, 8);
}

#[test]
fn unregistered_type_is_refused() {
    let mut world = World::builder().register_component::<Position>().build();
    assert_eq!(
        SingleComponentRefIter::<Velocity>::try_from_world(&mut world).err(),
        Some(BorrowError::NotRegistered)
    );
    assert_eq!(
        SingleComponentRefIterMut::<Velocity>::try_from_world(&mut world).err(),
        Some(BorrowError::NotRegistered)
    );
    assert_eq!(
        SingleComponentExclusiveIter::<Velocity>::try_from_world(&mut world).err(),
        Some(BorrowError::NotRegistered)
    );
    assert_eq!(
        SingleComponentExclusiveIterMut::<Velocity>::try_from_world(&mut world).err(),
        Some(BorrowError::NotRegistered)
    );
    assert_eq!(
        PairComponentsRefIter::<Position, Velocity>::try_from_world(&mut world).err(),
        Some(BorrowError::NotRegistered)
    );
    assert_eq!(
        PairComponentsRefIterMut::<Velocity, Position>::try_from_world(&mut world).err(),
        Some(BorrowError::NotRegistered)
    );
    assert_eq!(
        PairComponentsRefIterMut::<Velocity, Velocity>::try_from_world(&mut world).err(),
        Some(BorrowError::NotRegistered)
    );
    assert!(world.components.borrow_slice::<Velocity>().is_none());
    assert!(world.components.borrow_mut::<Velocity>().is_none());
}

#[test]
fn single_iterators_walk_in_slot_order() {
    let mut world = World::builder().register_component::<i32>().build();
    let first = world.new_entity();
    let second = world.new_entity();
    let third = world.new_entity();
    world.attach_component(third, 3);
    world.attach_component(first, 1);
    let mut iter = SingleComponentRefIter::<i32>::from_world(&mut world);
    assert_eq!(iter.next(), Some(&1));
    assert_eq!(iter.next(), Some(&3));
    assert_eq!(iter.next(), None);
    let mut iter = SingleComponentRefIterMut::<i32>::from_world(&mut world);
    while let Some(value) = iter.next() {
        *value *= 10;
    }
    assert_eq!(world.get_component::<i32>(first), Some(&10));
    assert_eq!(world.get_component::<i32>(second), None);
    assert_eq!(world.get_component::<i32>(third), Some(&30));
}

#[test]
fn closures_are_systems() {
    let mut world: World<TypeErasedSparseVec> =
        World::builder().register_component::<u64>().build();
    for i in 0..4u64 {
        let entity = world.new_entity();
        world.attach_component(entity, i);
    }
    world.execute(|mut iter: SingleComponentRefIterMut<'_, u64>| {
        while let Some(value) = iter.next() {
            *value += 100;
        }
    });
    let mut iter = SingleComponentExclusiveIter::<u64>::from_world(&mut world);
    let mut found = Vec::new();
    while let Some(value) = iter.next() {
        found.push(*value);
    }
    assert_eq!(found, vec![100, 101, 102, 103]);
}
