use xanadu::collections::{GenerationalId, TypeErasedSparseVec};
use xanadu::ecs::World;

#[test]
fn world_new() {
    let world = World::<TypeErasedSparseVec>::new();
    assert!(world.entities.is_empty());
    assert!(world.components.is_empty());
}

#[test]
fn new_entity() {
    let mut world = World::<TypeErasedSparseVec>::new();
    let entity = world.new_entity();
    assert_eq!(world.entities.len(), 1);
    assert_eq!(world.entities.get(entity), Some(&()));
}

#[test]
fn attach_component_return_value() {
    let mut world = World::builder().register_component::<i32>().build();
    let entity = world.new_entity();
    assert_eq!(world.attach_component(entity, 42), None);
    assert_eq!(world.attach_component(entity, 43), Some(42));
}

#[test]
fn detach_component_returns_what_was_attached() {
    let mut world =
        World::builder().register_component::<i32>().register_component::<u64>().build();
    let entity = world.new_entity();
    assert_eq!(world.detach_component::<i32>(entity), None);
    assert_eq!(world.attach_component(entity, 5i32), None);
    assert_eq!(world.attach_component(entity, 6u64), None);
    assert_eq!(world.get_component::<i32>(entity), Some(&5));
    assert_eq!(world.detach_component::<i32>(entity), Some(5));
    assert_eq!(world.detach_component::<i32>(entity), None);
    assert_eq!(world.get_component::<i32>(entity), None);
    assert_eq!(world.get_component::<u64>(entity), Some(&6));
}

#[test]
fn entity_that_is_not_alive_gets_nothing_attached() {
    let mut world = World::builder().register_component::<i32>().build();
    let entity = world.new_entity();
    let stale = GenerationalId { index: entity.index, generation: entity.generation + 1 };
    let unknown = GenerationalId { index: 9, generation: 0 };
    assert_eq!(world.attach_component(stale, 1), None);
    assert_eq!(world.attach_component(unknown, 2), None);
    assert_eq!(world.get_component::<i32>(entity), None);
    assert_eq!(world.attach_component(entity, 3), None);
    assert_eq!(world.detach_component::<i32>(stale), None);
    assert_eq!(world.get_component::<i32>(stale), None);
    assert_eq!(world.get_component::<i32>(entity), Some(&3));
}

#[test]
fn registering_twice_replaces_the_column() {
    let mut world = World::builder().register_component::<i32>().build();
    let entity = world.new_entity();
    world.attach_component(entity, 1);
    let mut world =
        World::builder().register_component::<i32>().register_component::<i32>().build();
    assert_eq!(world.components.len(), 1);
    let entity = world.new_entity();
    assert_eq!(world.attach_component(entity, 2), None);
}

#[test]
fn default_world_is_empty() {
    let world: World<TypeErasedSparseVec> = Default::default();
    assert!(world.entities.is_empty());
    assert_eq!(world.components.len(), 0);
}

#[test]
fn removed_entity_leaves_no_components_behind() {
    let mut world =
        World::builder().register_component::<i32>().register_component::<u64>().build();
    let first = world.new_entity();
    let second = world.new_entity();
    world.attach_component(first, 1i32);
    world.attach_component(first, 10u64);
    world.attach_component(second, 2i32);
    assert!(world.remove_entity(first));
    assert!(!world.remove_entity(first));
    assert_eq!(world.entities.len(), 1);
    assert_eq!(world.get_component::<i32>(first), None);
    assert_eq!(world.attach_component(first, 3i32), None);
    let reused = world.new_entity();
    assert_eq!(reused, GenerationalId { index: first.index, generation: first.generation + 1 });
    assert_eq!(world.get_component::<i32>(reused), None);
    assert_eq!(world.get_component::<u64>(reused), None);
    assert_eq!(world.get_component::<i32>(first), None);
    assert_eq!(world.get_component::<i32>(second), Some(&2));
    assert_eq!(world.attach_component(reused, 4i32), None);
    assert_eq!(world.get_component::<i32>(reused), Some(&4));
    assert_eq!(world.get_component::<i32>(first), None);
}

#[test]
fn removing_an_unknown_entity_changes_nothing() {
    let mut world = World::builder().register_component::<i32>().build();
    let entity = world.new_entity();
    world.attach_component(entity, 7);
    assert!(!world.remove_entity(GenerationalId { index: 3, generation: 0 }));
    assert!(!world.remove_entity(GenerationalId { index: 0, generation: 1 }));
    assert_eq!(world.get_component::<i32>(entity), Some(&7));
    assert_eq!(world.entities.len(), 1);
}
