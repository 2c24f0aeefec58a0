use vstd::prelude::*;
use crate::ecs::component::Component;
use std::any::TypeId;
use std::collections::HashMap;

verus! {

/// Identifier of an entity of the world.
pub type Entity = usize;

/// `s` grown with empty slots to at least `len` slots.
pub open spec fn grown<T>(s: Seq<Option<T>>, len: nat) -> Seq<Option<T>> {
    if s.len() < len { s + Seq::new((len - s.len()) as nat, |i: int| None::<T>) } else { s }
}

/// `s` with the slot of `entity` emptied, if it exists.
pub open spec fn emptied<T>(s: Seq<Option<T>>, entity: Entity) -> Seq<Option<T>> {
    if entity < s.len() { s.update(entity as int, None) } else { s }
}

/// `s` grown to hold the slot of `entity`, with `component` in that slot.
pub open spec fn with_slot<T>(s: Seq<Option<T>>, entity: Entity, component: T) -> Seq<Option<T>> {
    grown(s, entity as nat + 1).update(entity as int, Some(component))
}

/// What the slot of `entity` holds; an absent slot holds nothing.
pub open spec fn slot_of<T>(s: Seq<Option<T>>, entity: Entity) -> Option<T> {
    if entity < s.len() { s[entity as int] } else { None }
}

/// Typed component storage, indexed by entity id.
pub trait ComponentStorage {
    /// Grows the storage so that `entity_id` is a valid slot.
    fn ensure_capacity(&mut self, entity_id: usize)
        requires
            entity_id < usize::MAX,
    ;

    /// Empties the slot of `entity_id`, if it exists.
    fn remove(&mut self, entity_id: usize);
}

impl<T: Component> ComponentStorage for Vec<Option<T>> {
    fn ensure_capacity(&mut self, entity_id: usize)
        ensures
            final(self)@ == grown(old(self)@, entity_id as nat + 1),
    {
        let required_len = entity_id + 1;
        while self.len() < required_len
            invariant
                required_len == entity_id + 1,
                old(self)@.len() <= self@.len() <= if old(self)@.len() < required_len { required_len as int } else { old(self)@.len() as int },
                forall|i: int| 0 <= i < old(self)@.len() ==> self@[i] == old(self)@[i],
                forall|i: int| old(self)@.len() <= i < self@.len() ==> self@[i] is None,
            decreases required_len - self@.len(),
        {
            self.push(None);
        }
        assert(self@ =~= grown(old(self)@, entity_id as nat + 1));
    }

    fn remove(&mut self, entity_id: usize)
        ensures
            final(self)@ == emptied(old(self)@, entity_id),
    {
        if entity_id < self.len() {
            self.set(entity_id, None);
        }
    }
}

/// Puts `component` in the slot of `entity`, growing the storage as needed:
/// the typed half of adding a component to an entity.
pub fn insert_component<T: Component>(storage: &mut Vec<Option<T>>, entity: Entity, component: T)
    requires
        entity < usize::MAX,
    ensures
        final(storage)@ == with_slot(old(storage)@, entity, component),
{
    storage.ensure_capacity(entity);
    storage.set(entity, Some(component));
}

/// The component in the slot of `entity`, if there is one: the typed half
/// of reading a component of an entity.
pub fn get_component<T: Component>(storage: &Vec<Option<T>>, entity: Entity) -> (r: Option<&T>)
    ensures
        r is Some == slot_of(storage@, entity) is Some,
        r matches Some(c) ==> *c == slot_of(storage@, entity)->0,
{
    if entity < storage.len() {
        match &storage[entity] {
            Some(c) => Some(c),
            None => None,
        }
    } else {
        None
    }
}

/// Reading back after writing: the slot a component was put in yields it.
pub proof fn law_read_after_insert<T>(s: Seq<Option<T>>, entity: Entity, component: T)
    ensures
        slot_of(with_slot(s, entity, component), entity) == Some(component),
{
}

/// Putting a component in one slot leaves every other slot as it was.
pub proof fn law_insert_keeps_other_slots<T>(s: Seq<Option<T>>, entity: Entity, component: T, other: Entity)
    requires
        other != entity,
    ensures
        slot_of(with_slot(s, entity, component), other) == slot_of(s, other),
{
}

/// A slot that was emptied holds nothing; the others are unchanged.
pub proof fn law_remove_empties_slot<T>(s: Seq<Option<T>>, entity: Entity, other: Entity)
    ensures
        slot_of(emptied(s, entity), entity) is None,
        other != entity ==> slot_of(emptied(s, entity), other) == slot_of(s, other),
{
}

/// Growing a storage never changes what a slot holds.
pub proof fn law_grow_keeps_slots<T>(s: Seq<Option<T>>, len: nat, entity: Entity)
    ensures
        slot_of(grown(s, len), entity) == slot_of(s, entity),
{
}

/// The identity of a component type.
#[verifier::external_type_specification]
#[verifier::external_body]
pub struct ExTypeId(TypeId);

/// Compares two component type identities with `TypeId`'s `==`, which is
/// true exactly when both identify the same type, that is when they are
/// the same value.
#[verifier::external_body]
pub(crate) fn type_id_eq(a: &TypeId, b: &TypeId) -> (r: bool)
    ensures
        r == (*a == *b),
{
    *a == *b
}

/// Whether `list` holds `type_id`.
pub fn contains_type_id(list: &Vec<TypeId>, type_id: &TypeId) -> (r: bool)
    ensures
        r == list@.contains(*type_id),
{
    let mut i: usize = 0;
    while i < list.len()
        invariant
            0 <= i <= list@.len(),
            forall|j: int| 0 <= j < i ==> list@[j] != *type_id,
        decreases list@.len() - i,
    {
        if type_id_eq(&list[i], type_id) {
            return true;
        }
        i = i + 1;
    }
    false
}

/// Whether `list` holds every type of `required`.
pub fn contains_all_type_ids(list: &Vec<TypeId>, required: &[TypeId]) -> (r: bool)
    ensures
        r == (forall|k: int| 0 <= k < required@.len() ==> list@.contains(#[trigger] required@[k])),
{
    let mut k: usize = 0;
    while k < required.len()
        invariant
            0 <= k <= required@.len(),
            forall|j: int| 0 <= j < k ==> list@.contains(#[trigger] required@[j]),
        decreases required@.len() - k,
    {
        if !contains_type_id(list, &required[k]) {
            return false;
        }
        k = k + 1;
    }
    true
}

/// What a list of component types becomes when `type_id` is added:
/// it is appended unless already present.
pub open spec fn with_type(list: Seq<TypeId>, type_id: TypeId) -> Seq<TypeId> {
    if list.contains(type_id) { list } else { list.push(type_id) }
}

/// What a list of component types becomes when `type_id` is removed.
pub open spec fn without_type(list: Seq<TypeId>, type_id: TypeId) -> Seq<TypeId> {
    list.filter(|t: TypeId| t != type_id)
}

/// The entity map after `entity` gains a component of type `type_id`.
pub open spec fn with_component(m: Map<Entity, Seq<TypeId>>, entity: Entity, type_id: TypeId) -> Map<Entity, Seq<TypeId>> {
    m.insert(entity, if m.contains_key(entity) { with_type(m[entity], type_id) } else { seq![type_id] })
}

/// The entity map after `entity` loses its component of type `type_id`.
pub open spec fn without_component(m: Map<Entity, Seq<TypeId>>, entity: Entity, type_id: TypeId) -> Map<Entity, Seq<TypeId>> {
    if m.contains_key(entity) { m.insert(entity, without_type(m[entity], type_id)) } else { m }
}

/// Whether `entity` holds a component of type `type_id` in `m`.
pub open spec fn holds(m: Map<Entity, Seq<TypeId>>, entity: Entity, type_id: TypeId) -> bool {
    m.contains_key(entity) && m[entity].contains(type_id)
}

proof fn lemma_without_step(list: Seq<TypeId>, type_id: TypeId)
    requires
        list.len() > 0,
    ensures
        without_type(list, type_id) == if list.last() != type_id {
            without_type(list.drop_last(), type_id).push(list.last())
        } else {
            without_type(list.drop_last(), type_id)
        },
{
    reveal_with_fuel(Seq::filter, 1);
}

proof fn lemma_without_absent(list: Seq<TypeId>, type_id: TypeId)
    requires
        !list.contains(type_id),
    ensures
        without_type(list, type_id) == list,
    decreases list.len(),
{
    if list.len() > 0 {
        assert(!list.drop_last().contains(type_id)) by {
            if list.drop_last().contains(type_id) {
                let i = choose|i: int| 0 <= i < list.drop_last().len() && list.drop_last()[i] == type_id;
                assert(list[i] == type_id);
            }
        }
        lemma_without_absent(list.drop_last(), type_id);
        assert(list[list.len() - 1] != type_id);
        lemma_without_step(list, type_id);
        assert(list.drop_last().push(list.last()) =~= list);
    } else {
        reveal_with_fuel(Seq::filter, 1);
    }
}

proof fn lemma_without_contains(list: Seq<TypeId>, type_id: TypeId, x: TypeId)
    ensures
        without_type(list, type_id).contains(x) <==> (list.contains(x) && x != type_id),
    decreases list.len(),
{
    if list.len() == 0 {
        reveal_with_fuel(Seq::filter, 1);
    } else {
        lemma_without_contains(list.drop_last(), type_id, x);
        lemma_without_step(list, type_id);
        let sub = without_type(list.drop_last(), type_id);
        let last = list.last();
        assert(list[list.len() - 1] == last);
        if list.drop_last().contains(x) {
            let i = choose|i: int| 0 <= i < list.drop_last().len() && list.drop_last()[i] == x;
            assert(list[i] == x);
        }
        if list.contains(x) && x != last {
            let i = choose|i: int| 0 <= i < list.len() && list[i] == x;
            assert(list.drop_last()[i] == x);
        }
        if last != type_id {
            if sub.push(last).contains(x) && x != last {
                let i = choose|i: int| 0 <= i < sub.push(last).len() && sub.push(last)[i] == x;
                assert(sub[i] == x);
            }
            if sub.contains(x) {
                let i = choose|i: int| 0 <= i < sub.len() && sub[i] == x;
                assert(sub.push(last)[i] == x);
            }
            assert(sub.push(last)[sub.len() as int] == last);
        }
    }
}

/// Reading back after writing: once `entity` gains a component of type
/// `type_id`, it holds one.
pub proof fn law_holds_after_add(m: Map<Entity, Seq<TypeId>>, entity: Entity, type_id: TypeId)
    ensures
        holds(with_component(m, entity, type_id), entity, type_id),
{
    let after = with_component(m, entity, type_id);
    if m.contains_key(entity) && !m[entity].contains(type_id) {
        assert(after[entity][after[entity].len() - 1] == type_id);
    } else if !m.contains_key(entity) {
        assert(after[entity][0] == type_id);
    }
}

/// Adding a component of type `type_id` to `entity` changes no other
/// (entity, type) pair.
pub proof fn law_add_keeps_others(m: Map<Entity, Seq<TypeId>>, entity: Entity, type_id: TypeId, other: Entity, other_type: TypeId)
    requires
        other != entity || other_type != type_id,
    ensures
        holds(with_component(m, entity, type_id), other, other_type) == holds(m, other, other_type),
{
    let after = with_component(m, entity, type_id);
    if other == entity {
        if m.contains_key(entity) && !m[entity].contains(type_id) {
            let l = m[entity];
            if l.push(type_id).contains(other_type) {
                let i = choose|i: int| 0 <= i < l.push(type_id).len() && l.push(type_id)[i] == other_type;
                assert(l[i] == other_type);
            }
            if l.contains(other_type) {
                let i = choose|i: int| 0 <= i < l.len() && l[i] == other_type;
                assert(l.push(type_id)[i] == other_type);
            }
        } else if !m.contains_key(entity) {
            assert(!seq![type_id].contains(other_type)) by {
                if seq![type_id].contains(other_type) {
                    let i = choose|i: int| 0 <= i < 1 && seq![type_id][i] == other_type;
                }
            }
        }
    }
}

/// After `entity` loses its component of type `type_id`, it holds none.
pub proof fn law_not_held_after_remove(m: Map<Entity, Seq<TypeId>>, entity: Entity, type_id: TypeId)
    ensures
        !holds(without_component(m, entity, type_id), entity, type_id),
{
    if m.contains_key(entity) {
        lemma_without_contains(m[entity], type_id, type_id);
    }
}

/// Removing a component of type `type_id` from `entity` changes no other
/// (entity, type) pair.
pub proof fn law_remove_keeps_others(m: Map<Entity, Seq<TypeId>>, entity: Entity, type_id: TypeId, other: Entity, other_type: TypeId)
    requires
        other != entity || other_type != type_id,
    ensures
        holds(without_component(m, entity, type_id), other, other_type) == holds(m, other, other_type),
{
    if m.contains_key(entity) {
        lemma_without_contains(m[entity], type_id, other_type);
    }
}

/// Removing a type that was just added to a tracked entity that did not
/// hold it restores the entity map.
pub proof fn law_remove_undoes_add(m: Map<Entity, Seq<TypeId>>, entity: Entity, type_id: TypeId)
    requires
        m.contains_key(entity),
        !m[entity].contains(type_id),
    ensures
        without_component(with_component(m, entity, type_id), entity, type_id) == m,
{
    let l = m[entity];
    reveal_with_fuel(Seq::filter, 1);
    assert(l.push(type_id).drop_last() =~= l);
    lemma_without_absent(l, type_id);
    assert(without_type(l.push(type_id), type_id) == l);
    assert(without_component(with_component(m, entity, type_id), entity, type_id) =~= m);
}

/// Adding the same component type twice is the same as adding it once.
pub proof fn law_add_idempotent(m: Map<Entity, Seq<TypeId>>, entity: Entity, type_id: TypeId)
    ensures
        with_component(with_component(m, entity, type_id), entity, type_id) == with_component(m, entity, type_id),
{
    law_holds_after_add(m, entity, type_id);
    let once = with_component(m, entity, type_id);
    assert(with_component(once, entity, type_id) =~= once);
}

/// No entity of `m` lists a component type twice.
pub open spec fn lists_unique(m: Map<Entity, Seq<TypeId>>) -> bool {
    forall|e: Entity| #[trigger] m.contains_key(e) ==> m[e].no_duplicates()
}

/// `type_id` stands at exactly one place of `list`.
pub open spec fn occurs_once(list: Seq<TypeId>, type_id: TypeId) -> bool {
    exists|i: int| 0 <= i < list.len() && list[i] == type_id
        && forall|j: int| 0 <= j < list.len() && #[trigger] list[j] == type_id ==> j == i
}

/// A component type is recorded once per entity: after `entity` gains a
/// component of type `type_id`, its list holds that type at exactly one
/// place, and no list holds a type twice.
pub proof fn law_type_recorded_once(m: Map<Entity, Seq<TypeId>>, entity: Entity, type_id: TypeId)
    requires
        lists_unique(m),
    ensures
        lists_unique(with_component(m, entity, type_id)),
        occurs_once(with_component(m, entity, type_id)[entity], type_id),
{
    law_holds_after_add(m, entity, type_id);
    let after = with_component(m, entity, type_id);
    let l = after[entity];
    if m.contains_key(entity) && !m[entity].contains(type_id) {
        let old_l = m[entity];
        assert(old_l.no_duplicates());
        assert forall|a: int, b: int| 0 <= a < b < l.len() implies l[a] != l[b] by {
            if b == l.len() - 1 {
                assert(l[a] == old_l[a]);
                assert(old_l.contains(old_l[a]));
            } else {
                assert(l[a] == old_l[a] && l[b] == old_l[b]);
            }
        }
    } else if !m.contains_key(entity) {
        assert(l == seq![type_id]);
    } else {
        assert(l == m[entity]);
    }
    assert(l.no_duplicates());
    assert forall|e: Entity| #[trigger] after.contains_key(e) implies after[e].no_duplicates() by {
        if e != entity {
            assert(after[e] == m[e]);
        }
    }
    let i = choose|i: int| 0 <= i < l.len() && l[i] == type_id;
    assert forall|j: int| 0 <= j < l.len() && #[trigger] l[j] == type_id implies j == i by {}
}

/// Every entity `m` tracks has an id below `next`.
pub open spec fn ids_below(m: Map<Entity, Seq<TypeId>>, next: nat) -> bool {
    forall|e: Entity| #[trigger] m.contains_key(e) ==> e < next
}

/// Fresh ids: when every tracked entity has an id below the next id, the
/// entity created next was not tracked before, starts with no component,
/// and afterwards every tracked id is still below the next id.
pub proof fn law_created_entity_is_fresh(m: Map<Entity, Seq<TypeId>>, next: nat, type_id: TypeId)
    requires
        ids_below(m, next),
        next < usize::MAX,
    ensures
        !m.contains_key(next as Entity),
        !holds(m.insert(next as Entity, Seq::empty()), next as Entity, type_id),
        ids_below(m.insert(next as Entity, Seq::empty()), next + 1),
{
    let after = m.insert(next as Entity, Seq::empty());
    assert(!Seq::<TypeId>::empty().contains(type_id));
    assert forall|e: Entity| #[trigger] after.contains_key(e) implies e < next + 1 by {
        if e != next as Entity {
            assert(m.contains_key(e));
        }
    }
}

/// Adding or removing a component of an entity below the next id keeps
/// every tracked id below the next id.
pub proof fn law_ids_stay_below(m: Map<Entity, Seq<TypeId>>, next: nat, entity: Entity, type_id: TypeId)
    requires
        ids_below(m, next),
        entity < next,
    ensures
        ids_below(with_component(m, entity, type_id), next),
        ids_below(without_component(m, entity, type_id), next),
{
    assert forall|e: Entity| #[trigger] with_component(m, entity, type_id).contains_key(e) implies e < next by {
        if e != entity {
            assert(m.contains_key(e));
        }
    }
    assert forall|e: Entity| #[trigger] without_component(m, entity, type_id).contains_key(e) implies e < next by {
        if e != entity {
            assert(m.contains_key(e));
        }
    }
}

/// Whether `list` holds every type of `required`.
pub open spec fn has_all(list: Seq<TypeId>, required: Seq<TypeId>) -> bool {
    forall|k: int| 0 <= k < required.len() ==> list.contains(#[trigger] required[k])
}

/// An entity matches a set of required component types exactly when it is
/// tracked and holds every one of them: missing any one of them, whatever
/// its place among the required types, it does not match.
pub proof fn law_match_holds_every_type(m: Map<Entity, Seq<TypeId>>, entity: Entity, required: Seq<TypeId>)
    ensures
        (m.contains_key(entity) && has_all(m[entity], required))
            <==> (m.contains_key(entity) && forall|t: TypeId| required.contains(t) ==> #[trigger] holds(m, entity, t)),
        forall|k: int| 0 <= k < required.len() && !holds(m, entity, #[trigger] required[k])
            ==> !(m.contains_key(entity) && has_all(m[entity], required)),
{
    if m.contains_key(entity) && has_all(m[entity], required) {
        assert forall|t: TypeId| required.contains(t) implies #[trigger] holds(m, entity, t) by {
            let k = choose|k: int| 0 <= k < required.len() && required[k] == t;
            assert(m[entity].contains(required[k]));
        }
    }
    if m.contains_key(entity) && forall|t: TypeId| required.contains(t) ==> #[trigger] holds(m, entity, t) {
        assert forall|k: int| 0 <= k < required.len() implies m[entity].contains(#[trigger] required[k]) by {
            assert(required.contains(required[k]));
            assert(holds(m, entity, required[k]));
        }
    }
}

/// The entity/component bookkeeping of the ECS world: which entities exist,
/// which entity id comes next, and which component types each entity holds.
/// The component values themselves live in typed storages
/// (see [`ComponentStorage`]) keyed by the same type identities.
pub struct EcsWorld {
    next_entity_id: usize,
    entity_components: HashMap<Entity, Vec<TypeId>>,
}

impl EcsWorld {
    /// The id the next created entity receives.
    pub closed spec fn next_id(&self) -> nat {
        self.next_entity_id as nat
    }

    /// Each tracked entity with the component types it holds, in the order
    /// they were added.
    pub closed spec fn entities(&self) -> Map<Entity, Seq<TypeId>> {
        self.entity_components@.map_values(|v: Vec<TypeId>| v@)
    }

    #[verifier::type_invariant]
    closed spec fn wf(&self) -> bool {
        forall|e: Entity| #[trigger] self.entity_components@.contains_key(e)
            ==> self.entity_components@[e]@.no_duplicates()
    }

    /// Moves the entity map out, leaving an empty one in its place.
    fn take_map(&mut self) -> (map: HashMap<Entity, Vec<TypeId>>)
        ensures
            map@ == old(self).entity_components@,
            final(self).next_entity_id == old(self).next_entity_id,
            final(self).entity_components@ == Map::<Entity, Vec<TypeId>>::empty(),
            forall|e: Entity| #[trigger] map@.contains_key(e) ==> map@[e]@.no_duplicates(),
    {
        broadcast use vstd::std_specs::hash::group_hash_axioms;
        proof { use_type_invariant(&*self); }
        let mut map: HashMap<Entity, Vec<TypeId>> = HashMap::new();
        std::mem::swap(&mut map, &mut self.entity_components);
        map
    }

    /// Creates a new, empty world.
    pub fn new() -> (w: Self)
        ensures
            w.next_id() == 0,
            w.entities() == Map::<Entity, Seq<TypeId>>::empty(),
            lists_unique(w.entities()),
    {
        let w = EcsWorld { next_entity_id: 0, entity_components: HashMap::new() };
        assert(w.entities() =~= Map::<Entity, Seq<TypeId>>::empty());
        w
    }

    /// The id the next created entity receives.
    pub fn next_entity_id(&self) -> (r: usize)
        ensures
            r == self.next_id(),
    {
        self.next_entity_id
    }

    fn allocate_entity_id(&mut self) -> (entity: Entity)
        requires
            old(self).next_id() < usize::MAX,
        ensures
            entity == old(self).next_id(),
            final(self).next_id() == old(self).next_id() + 1,
            final(self).entities() == old(self).entities().insert(entity, Seq::<TypeId>::empty()),
    {
        broadcast use vstd::std_specs::hash::group_hash_axioms;
        proof { use_type_invariant(&*self); }
        let id = self.next_entity_id;
        let mut map = self.take_map();
        let _ = map.insert(id, Vec::new());
        self.entity_components = map;
        self.next_entity_id = self.next_entity_id + 1;
        assert(self.entities() =~= old(self).entities().insert(id, Seq::<TypeId>::empty()));
        id
    }

    /// Creates a new entity with no components and returns its id.
    /// Ids are handed out in increasing order, starting from 0.
    pub fn create_entity(&mut self) -> (entity: Entity)
        requires
            old(self).next_id() < usize::MAX,
        ensures
            entity == old(self).next_id(),
            final(self).next_id() == old(self).next_id() + 1,
            final(self).entities() == old(self).entities().insert(entity, Seq::<TypeId>::empty()),
            lists_unique(final(self).entities()),
    {
        let entity = self.allocate_entity_id();
        proof { use_type_invariant(&*self); }
        entity
    }

    /// Records that `entity` holds a component of type `type_id`. An entity
    /// that is not tracked yet starts being tracked with that one type.
    pub fn add_component(&mut self, entity: Entity, type_id: TypeId)
        ensures
            final(self).next_id() == old(self).next_id(),
            final(self).entities() == with_component(old(self).entities(), entity, type_id),
            lists_unique(final(self).entities()),
    {
        broadcast use vstd::std_specs::hash::group_hash_axioms;
        proof { use_type_invariant(&*self); }
        let mut map = self.take_map();
        let ghost m0 = map@;
        let removed = map.remove(&entity);
        match removed {
            Some(mut components) => {
                assert(components@.no_duplicates());
                assert(components@ == old(self).entities()[entity]);
                if !contains_type_id(&components, &type_id) {
                    components.push(type_id);
                }
                assert(components@ == with_type(old(self).entities()[entity], type_id));
                let _ = map.insert(entity, components);
                assert(map@ == m0.insert(entity, components));
            },
            None => {
                let single = vec![type_id];
                assert(single@ =~= seq![type_id]);
                let _ = map.insert(entity, single);
                assert(map@ == m0.insert(entity, single));
            },
        }
        self.entity_components = map;
        assert(self.entities() =~= old(self).entities().insert(
            entity,
            if old(self).entities().contains_key(entity) {
                with_type(old(self).entities()[entity], type_id)
            } else {
                seq![type_id]
            },
        ));
        proof { use_type_invariant(&*self); }
    }

    /// Records that `entity` no longer holds a component of type `type_id`.
    pub fn remove_component(&mut self, entity: Entity, type_id: TypeId)
        ensures
            final(self).next_id() == old(self).next_id(),
            final(self).entities() == without_component(old(self).entities(), entity, type_id),
            lists_unique(final(self).entities()),
    {
        broadcast use vstd::std_specs::hash::group_hash_axioms;
        proof { use_type_invariant(&*self); }
        let mut map = self.take_map();
        let removed = map.remove(&entity);
        match removed {
            Some(components) => {
                let kept = retain_other_types(&components, &type_id);
                let _ = map.insert(entity, kept);
                self.entity_components = map;
                assert(self.entities() =~= old(self).entities().insert(
                    entity, without_type(old(self).entities()[entity], type_id)));
            },
            None => {
                self.entity_components = map;
                assert(self.entities() =~= old(self).entities());
            },
        }
        proof { use_type_invariant(&*self); }
    }

    /// Whether `entity` holds a component of type `type_id`.
    pub fn has_component(&self, entity: Entity, type_id: TypeId) -> (r: bool)
        ensures
            r == holds(self.entities(), entity, type_id),
    {
        broadcast use vstd::std_specs::hash::group_hash_axioms;
        match self.entity_components.get(&entity) {
            Some(components) => contains_type_id(components, &type_id),
            None => false,
        }
    }

    /// Whether `entity` is tracked and holds every type of `required`.
    pub fn entity_has_components(&self, entity: Entity, required: &[TypeId]) -> (r: bool)
        ensures
            r == (self.entities().contains_key(entity) && has_all(self.entities()[entity], required@)),
    {
        broadcast use vstd::std_specs::hash::group_hash_axioms;
        match self.entity_components.get(&entity) {
            Some(components) => contains_all_type_ids(components, required),
            None => false,
        }
    }

    /// Every tracked entity that holds all the types of `component_types`,
    /// each once, in the order the entity map is walked.
    pub fn query_entities(&self, component_types: &[TypeId]) -> (r: Vec<Entity>)
        ensures
            r@.no_duplicates(),
            forall|e: Entity| r@.contains(e) <==> (self.entities().contains_key(e)
                && has_all(self.entities()[e], component_types@)),
    {
        broadcast use vstd::std_specs::hash::group_hash_axioms;
        let mut result: Vec<Entity> = Vec::new();
        for e in it: self.entity_components.keys()
            invariant
                it.seq().no_duplicates(),
                it.seq().unref().to_set() == self.entity_components@.dom(),
                result@.no_duplicates(),
                forall|x: Entity| result@.contains(x) <==> (exists|k: int| 0 <= k < it.index() && *it.seq()[k] == x)
                    && self.entities().contains_key(x) && has_all(self.entities()[x], component_types@),
        {
            let entity = *e;
            let ghost k = it.index();
            let ghost before = result@;
            assert(*it.seq()[k] == entity);
            assert(!before.contains(entity)) by {
                if before.contains(entity) {
                    let j = choose|j: int| 0 <= j < k && *it.seq()[j] == entity;
                    assert(it.seq()[j] == it.seq()[k]);
                }
            }
            if self.entity_has_components(entity, component_types) {
                result.push(entity);
                assert(result@.no_duplicates()) by {
                    assert forall|a: int, b: int| 0 <= a < b < result@.len() implies result@[a] != result@[b] by {
                        if b == result@.len() - 1 {
                            assert(before.contains(result@[a]));
                        } else {
                            assert(before[a] == result@[a] && before[b] == result@[b]);
                        }
                    }
                }
            }
            assert forall|x: Entity| result@.contains(x) <==> (exists|j: int| 0 <= j < k + 1 && *it.seq()[j] == x)
                && self.entities().contains_key(x) && has_all(self.entities()[x], component_types@) by {
                if result@.contains(x) && x != entity {
                    assert(before.contains(x)) by {
                        let j = choose|j: int| 0 <= j < result@.len() && result@[j] == x;
                        assert(before[j] == x);
                    }
                }
                if (exists|j: int| 0 <= j < k + 1 && *it.seq()[j] == x)
                    && self.entities().contains_key(x) && has_all(self.entities()[x], component_types@) {
                    if x == entity {
                        assert(result@[result@.len() - 1] == x);
                    } else {
                        let j = choose|j: int| 0 <= j < k + 1 && *it.seq()[j] == x;
                        assert(j < k);
                        assert(before.contains(x));
                        let m = choose|m: int| 0 <= m < before.len() && before[m] == x;
                        assert(result@[m] == x);
                    }
                }
            }
        }
        result
    }
}

/// The types of `list` other than `type_id`, in order.
fn retain_other_types(list: &Vec<TypeId>, type_id: &TypeId) -> (r: Vec<TypeId>)
    requires
        list@.no_duplicates(),
    ensures
        r@ == without_type(list@, *type_id),
        r@.no_duplicates(),
{
    let mut kept: Vec<TypeId> = Vec::new();
    let mut i: usize = 0;
    while i < list.len()
        invariant
            0 <= i <= list@.len(),
            list@.no_duplicates(),
            kept@ == without_type(list@.take(i as int), *type_id),
            kept@.no_duplicates(),
            forall|x: TypeId| kept@.contains(x) ==> list@.take(i as int).contains(x),
        decreases list@.len() - i,
    {
        reveal_with_fuel(Seq::filter, 1);
        assert(list@.take(i + 1).drop_last() =~= list@.take(i as int));
        let ghost before = kept@;
        if !type_id_eq(&list[i], type_id) {
            assert(!list@.take(i as int).contains(list@[i as int])) by {
                if list@.take(i as int).contains(list@[i as int]) {
                    let k = choose|k: int| 0 <= k < i && list@.take(i as int)[k] == list@[i as int];
                    assert(list@[k] == list@[i as int]);
                }
            }
            kept.push(list[i]);
            assert(kept@.no_duplicates()) by {
                assert forall|a: int, b: int| 0 <= a < b < kept@.len() implies kept@[a] != kept@[b] by {
                    if b == kept@.len() - 1 {
                        assert(before.contains(kept@[a]));
                    } else {
                        assert(before[a] == kept@[a] && before[b] == kept@[b]);
                    }
                }
            }
        }
        assert forall|x: TypeId| kept@.contains(x) implies list@.take(i + 1).contains(x) by {
            if before.contains(x) {
                let k = choose|k: int| 0 <= k < i && list@.take(i as int)[k] == x;
                assert(list@.take(i + 1)[k] == x);
            } else {
                assert(list@.take(i + 1)[i as int] == x);
            }
        }
        i = i + 1;
    }
    assert(list@.take(list@.len() as int) =~= list@);
    kept
}

} // verus!
