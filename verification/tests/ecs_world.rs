use std::any::TypeId;

use engine::ecs::storage::{Storage, StorageType};
use engine::ecs::world::{
    contains_all_type_ids, contains_type_id, get_component, insert_component,
    ComponentStorage, EcsWorld,
};
use engine::collision::collider_cache::ColliderCache;

struct Position;
struct Velocity;
struct Health;

fn pos() -> TypeId {
    TypeId::of::<Position>()
}
fn vel() -> TypeId {
    TypeId::of::<Velocity>()
}
fn hp() -> TypeId {
    TypeId::of::<Health>()
}

#[test]
fn new_world_is_empty() {
    let world = EcsWorld::new();
    assert_eq!(world.next_entity_id(), 0);
    assert!(world.query_entities(&[]).is_empty());
}

#[test]
fn create_entity_hands_out_increasing_ids() {
    let mut world = EcsWorld::new();
    assert_eq!(world.create_entity(), 0);
    assert_eq!(world.create_entity(), 1);
    assert_eq!(world.create_entity(), 2);
    assert_eq!(world.next_entity_id(), 3);
}

#[test]
fn has_component_after_add() {
    let mut world = EcsWorld::new();
    let e = world.create_entity();
    assert!(!world.has_component(e, pos()));
    world.add_component(e, pos());
    assert!(world.has_component(e, pos()));
    assert!(!world.has_component(e, vel()));
}

#[test]
fn add_component_keeps_other_entities() {
    let mut world = EcsWorld::new();
    let a = world.create_entity();
    let b = world.create_entity();
    world.add_component(a, pos());
    assert!(!world.has_component(b, pos()));
    world.add_component(b, vel());
    assert!(world.has_component(a, pos()));
    assert!(!world.has_component(a, vel()));
}

#[test]
fn add_component_twice_is_once() {
    let mut world = EcsWorld::new();
    let e = world.create_entity();
    world.add_component(e, pos());
    world.add_component(e, pos());
    world.remove_component(e, pos());
    assert!(!world.has_component(e, pos()));
}

#[test]
fn add_component_to_untracked_entity_tracks_it() {
    let mut world = EcsWorld::new();
    world.add_component(7, hp());
    assert!(world.has_component(7, hp()));
    assert_eq!(world.query_entities(&[hp()]), vec![7]);
    // the entity counter is not affected
    assert_eq!(world.next_entity_id(), 0);
}

#[test]
fn remove_component_clears_only_that_type() {
    let mut world = EcsWorld::new();
    let e = world.create_entity();
    world.add_component(e, pos());
    world.add_component(e, vel());
    world.remove_component(e, pos());
    assert!(!world.has_component(e, pos()));
    assert!(world.has_component(e, vel()));
}

#[test]
fn remove_component_from_untracked_entity_does_nothing() {
    let mut world = EcsWorld::new();
    world.remove_component(3, pos());
    assert!(!world.has_component(3, pos()));
    assert!(world.query_entities(&[]).is_empty());
}

#[test]
fn remove_undoes_add() {
    let mut world = EcsWorld::new();
    let e = world.create_entity();
    world.add_component(e, vel());
    world.add_component(e, pos());
    world.remove_component(e, pos());
    assert!(world.entity_has_components(e, &[vel()]));
    assert!(!world.entity_has_components(e, &[pos()]));
}

#[test]
fn query_entities_needs_all_types() {
    let mut world = EcsWorld::new();
    let a = world.create_entity();
    let b = world.create_entity();
    let c = world.create_entity();
    world.add_component(a, pos());
    world.add_component(a, vel());
    world.add_component(b, pos());
    world.add_component(c, vel());
    let mut both = world.query_entities(&[pos(), vel()]);
    both.sort();
    assert_eq!(both, vec![a]);
    let mut with_pos = world.query_entities(&[pos()]);
    with_pos.sort();
    assert_eq!(with_pos, vec![a, b]);
    let mut all = world.query_entities(&[]);
    all.sort();
    assert_eq!(all, vec![a, b, c]);
}

#[test]
fn entity_has_components_on_unknown_entity() {
    let world = EcsWorld::new();
    assert!(!world.entity_has_components(0, &[]));
}

#[test]
fn type_id_helpers() {
    let list = vec![pos(), vel()];
    assert!(contains_type_id(&list, &vel()));
    assert!(!contains_type_id(&list, &hp()));
    assert!(contains_all_type_ids(&list, &[vel(), pos()]));
    assert!(!contains_all_type_ids(&list, &[vel(), hp()]));
    assert!(contains_all_type_ids(&list, &[]));
}

#[test]
fn storage_ensure_capacity_grows_with_none() {
    let mut storage: Vec<Option<u32>> = vec![Some(4)];
    storage.ensure_capacity(3);
    assert_eq!(storage, vec![Some(4), None, None, None]);
    storage.ensure_capacity(1);
    assert_eq!(storage.len(), 4);
}

#[test]
fn storage_remove_empties_slot() {
    let mut storage: Vec<Option<u32>> = vec![Some(4), Some(5)];
    ComponentStorage::remove(&mut storage, 1);
    assert_eq!(storage, vec![Some(4), None]);
    ComponentStorage::remove(&mut storage, 10);
    assert_eq!(storage, vec![Some(4), None]);
}

#[test]
fn component_read_after_insert() {
    let mut storage: Vec<Option<&str>> = Vec::new();
    insert_component(&mut storage, 2, "ship");
    assert_eq!(storage, vec![None, None, Some("ship")]);
    assert_eq!(get_component(&storage, 2), Some(&"ship"));
    assert_eq!(get_component(&storage, 0), None);
    assert_eq!(get_component(&storage, 9), None);
    insert_component(&mut storage, 0, "sun");
    assert_eq!(get_component(&storage, 0), Some(&"sun"));
    assert_eq!(get_component(&storage, 2), Some(&"ship"));
}

#[test]
fn collider_cache_is_a_cache_storage() {
    assert!(matches!(<ColliderCache as Storage>::STORAGE_TYPE, StorageType::Cache));
}

#[test]
fn created_entity_is_fresh() {
    let mut world = EcsWorld::new();
    let a = world.create_entity();
    world.add_component(a, pos());
    world.add_component(a, vel());
    world.remove_component(a, vel());
    let b = world.create_entity();
    assert_eq!(b, 1);
    assert_ne!(a, b);
    assert!(!world.has_component(b, pos()));
    assert!(!world.has_component(b, vel()));
    assert!(world.entity_has_components(b, &[]));
}

#[test]
fn type_recorded_once_per_entity() {
    let mut world = EcsWorld::new();
    let e = world.create_entity();
    world.add_component(e, pos());
    world.add_component(e, pos());
    assert!(world.has_component(e, pos()));
    // one removal takes the type away entirely, so it was listed once
    world.remove_component(e, pos());
    assert!(!world.has_component(e, pos()));
}
