use std::any::TypeId;

use engine::ecs::query::{
    check_query_access, get_component_type_ids, is_mutable, QueryAccess, QueryError,
    QueryItem, QueryIter, QueryIterMut, WorldQuery,
};
use engine::ecs::world::{EcsWorld, Entity};

struct Transform;
struct RigidBody;
struct Tag;

fn t() -> TypeId {
    TypeId::of::<Transform>()
}
fn r() -> TypeId {
    TypeId::of::<RigidBody>()
}
fn g() -> TypeId {
    TypeId::of::<Tag>()
}

#[test]
fn read_only_query_has_no_conflict() {
    let q = [QueryAccess::Read(t()), QueryAccess::Read(t()), QueryAccess::EntityId];
    assert!(check_query_access(&q).is_ok());
    assert!(!is_mutable(&q));
}

#[test]
fn mutable_borrow_after_borrow_conflicts() {
    let q = [QueryAccess::Read(t()), QueryAccess::Write(t())];
    match check_query_access(&q) {
        Err(QueryError::ConflictingAccess(id)) => assert_eq!(id, t()),
        other => panic!("unexpected {:?}", other),
    }
    let q = [QueryAccess::Write(r()), QueryAccess::Write(r())];
    assert!(matches!(check_query_access(&q), Err(QueryError::ConflictingAccess(_))));
}

#[test]
fn borrow_after_mutable_borrow_is_not_checked() {
    // only the mutable item looks back at earlier items
    let q = [QueryAccess::Write(t()), QueryAccess::Read(t())];
    assert!(check_query_access(&q).is_ok());
}

#[test]
fn first_conflict_is_reported() {
    let q = [
        QueryAccess::Read(t()),
        QueryAccess::Read(r()),
        QueryAccess::Write(r()),
        QueryAccess::Write(t()),
    ];
    match check_query_access(&q) {
        Err(QueryError::ConflictingAccess(id)) => assert_eq!(id, r()),
        other => panic!("unexpected {:?}", other),
    }
}

#[test]
fn check_access_records_borrows() {
    let mut ids = Vec::new();
    assert!(QueryAccess::Read(t()).check_access(&mut ids).is_ok());
    assert!(QueryAccess::EntityId.check_access(&mut ids).is_ok());
    assert_eq!(ids.len(), 1);
    assert!(QueryAccess::Write(t()).check_access(&mut ids).is_err());
    assert_eq!(ids.len(), 1);
    assert!(QueryAccess::Write(r()).check_access(&mut ids).is_ok());
    assert_eq!(ids, vec![t(), r()]);
}

#[test]
fn item_properties() {
    assert!(QueryAccess::Write(t()).is_mutable());
    assert!(!QueryAccess::Read(t()).is_mutable());
    assert!(QueryAccess::EntityId.get_component_type_id().is_none());
    assert_eq!(QueryAccess::Read(g()).get_component_type_id(), Some(g()));
}

#[test]
fn component_type_ids_skip_entity() {
    let q = [QueryAccess::EntityId, QueryAccess::Write(r()), QueryAccess::Read(g())];
    assert_eq!(get_component_type_ids(&q), vec![r(), g()]);
    assert!(is_mutable(&q));
}

#[test]
fn query_items_describe_their_access() {
    assert!(matches!(<&Transform as QueryItem>::access(), QueryAccess::Read(id) if id == t()));
    assert!(matches!(<&mut RigidBody as QueryItem>::access(), QueryAccess::Write(id) if id == r()));
    assert!(matches!(<Entity as QueryItem>::access(), QueryAccess::EntityId));
    assert!(matches!(<&Tag as QueryItem>::access(), QueryAccess::Read(id) if id == g()));
}

#[test]
fn world_queries_list_items_in_order() {
    let a = <(Entity, &Transform, &mut RigidBody) as WorldQuery>::accesses();
    assert_eq!(a.len(), 3);
    assert!(matches!(a[0], QueryAccess::EntityId));
    assert!(matches!(a[1], QueryAccess::Read(id) if id == t()));
    assert!(matches!(a[2], QueryAccess::Write(id) if id == r()));
    assert_eq!(<(&Tag,) as WorldQuery>::accesses().len(), 1);
    assert_eq!(<(&Tag, &Transform) as WorldQuery>::accesses().len(), 2);
    assert_eq!(<(&Tag, &Transform, &RigidBody, Entity) as WorldQuery>::accesses().len(), 4);
    assert_eq!(<(&Tag, &Transform, &RigidBody, Entity, &mut Tag) as WorldQuery>::accesses().len(), 5);
    assert!(check_query_access(&<(&Tag, &mut Tag) as WorldQuery>::accesses()).is_err());
}

fn sample_world() -> EcsWorld {
    let mut w = EcsWorld::new();
    let a = w.create_entity();
    let b = w.create_entity();
    let _c = w.create_entity();
    w.add_component(a, t());
    w.add_component(a, r());
    w.add_component(b, t());
    w
}

fn drain(mut it: QueryIter) -> Vec<Entity> {
    let mut v = Vec::new();
    while let Some(e) = it.next() {
        v.push(e);
    }
    v.sort();
    v
}

fn drain_mut(mut it: QueryIterMut) -> Vec<Entity> {
    let mut v = Vec::new();
    while let Some(e) = it.next() {
        v.push(e);
    }
    v.sort();
    v
}

#[test]
fn query_visits_matching_entities_once() {
    let w = sample_world();
    let it = w.query(&[QueryAccess::EntityId, QueryAccess::Read(t())]);
    assert_eq!(drain(it), vec![0, 1]);
    let it = QueryIter::new(&w, &[QueryAccess::Read(t()), QueryAccess::Read(r())]);
    assert_eq!(drain(it), vec![0]);
}

#[test]
fn exhausted_query_stays_exhausted() {
    let w = sample_world();
    let mut it = w.query(&[QueryAccess::Read(g())]);
    assert_eq!(it.next(), None);
    assert_eq!(it.next(), None);
}

#[test]
fn immutable_query_refuses_mutable_borrow() {
    // the conditions a caller tests before starting an immutable query
    let q = [QueryAccess::Write(t())];
    assert!(check_query_access(&q).is_ok());
    assert!(is_mutable(&q));
    let q = [QueryAccess::Read(t()), QueryAccess::Write(t())];
    assert!(matches!(check_query_access(&q), Err(QueryError::ConflictingAccess(_))));
}

#[test]
fn mutable_query_visits_matching_entities() {
    let w = sample_world();
    let it = w.query_mut(&[QueryAccess::Write(t()), QueryAccess::Read(r())]);
    assert_eq!(drain_mut(it), vec![0]);
    let it = QueryIterMut::new(&w, &[QueryAccess::Write(t())]);
    assert_eq!(drain_mut(it), vec![0, 1]);
}

#[test]
fn query_entity_checks_one_entity() {
    let w = sample_world();
    assert!(w.query_entity(&[QueryAccess::Read(t()), QueryAccess::Read(r())], 0));
    assert!(!w.query_entity(&[QueryAccess::Read(t()), QueryAccess::Read(r())], 1));
    assert!(!w.query_entity(&[QueryAccess::Read(t())], 42));
    assert!(w.query_entity_mut(&[QueryAccess::Write(t())], 1));
    assert!(!w.query_entity_mut(&[QueryAccess::Write(r())], 1));
}
