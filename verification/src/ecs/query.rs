use vstd::prelude::*;
use std::any::TypeId;
use crate::ecs::component::Component;
use crate::ecs::world::{Entity, EcsWorld, contains_type_id, has_all};

verus! {

/// What one item of a query asks of the world.
#[derive(Clone, Copy, Debug)]
pub enum QueryAccess {
    /// A shared borrow of the component of the given type (`&T`).
    Read(TypeId),
    /// An exclusive borrow of the component of the given type (`&mut T`).
    Write(TypeId),
    /// The id of the entity itself.
    EntityId,
}

/// Why a query cannot run.
#[derive(Clone, Copy, Debug)]
pub enum QueryError {
    /// The query borrows this component type mutably after an earlier item
    /// of the same query already borrowed it.
    ConflictingAccess(TypeId),
}

/// The component type an item refers to, if any.
pub open spec fn access_type_id(a: QueryAccess) -> Option<TypeId> {
    match a {
        QueryAccess::Read(t) => Some(t),
        QueryAccess::Write(t) => Some(t),
        QueryAccess::EntityId => None,
    }
}

/// The component types the items of `s` refer to, in order.
pub open spec fn type_ids_of(s: Seq<QueryAccess>) -> Seq<TypeId>
    decreases s.len(),
{
    if s.len() == 0 {
        Seq::empty()
    } else {
        match access_type_id(s.last()) {
            Some(t) => type_ids_of(s.drop_last()).push(t),
            None => type_ids_of(s.drop_last()),
        }
    }
}

/// Item `j` of `s` borrows a type mutably that an earlier item already borrows.
pub open spec fn conflict_at(s: Seq<QueryAccess>, j: int) -> bool {
    &&& 0 <= j < s.len()
    &&& s[j] matches QueryAccess::Write(t)
    &&& type_ids_of(s.take(j)).contains(t)
}

/// No item of `s` borrows a type mutably that an earlier item borrows.
pub open spec fn conflict_free(s: Seq<QueryAccess>) -> bool {
    forall|j: int| !#[trigger] conflict_at(s, j)
}

/// Some item of `s` is a mutable borrow.
pub open spec fn any_mutable(s: Seq<QueryAccess>) -> bool {
    exists|j: int| 0 <= j < s.len() && #[trigger] s[j] is Write
}

/// What checking the items of `s` in order reports: the type of the first
/// conflicting mutable borrow, if there is one.
pub open spec fn first_conflict(s: Seq<QueryAccess>) -> Option<TypeId> {
    if conflict_free(s) {
        None
    } else {
        let j = choose|j: int| conflict_at(s, j) && forall|i: int| 0 <= i < j ==> !#[trigger] conflict_at(s, i);
        access_type_id(s[j])
    }
}

proof fn lemma_type_ids_of_push(s: Seq<QueryAccess>, a: QueryAccess)
    ensures
        type_ids_of(s.push(a)) == match access_type_id(a) {
            Some(t) => type_ids_of(s).push(t),
            None => type_ids_of(s),
        },
{
    assert(s.push(a).drop_last() =~= s);
}

proof fn lemma_type_ids_of_contains(s: Seq<QueryAccess>, t: TypeId)
    ensures
        type_ids_of(s).contains(t) <==> exists|i: int| 0 <= i < s.len() && access_type_id(#[trigger] s[i]) == Some(t),
    decreases s.len(),
{
    if s.len() > 0 {
        lemma_type_ids_of_contains(s.drop_last(), t);
        if type_ids_of(s).contains(t) {
            if access_type_id(s.last()) != Some(t) {
                assert(type_ids_of(s.drop_last()).contains(t)) by {
                    let k = choose|k: int| 0 <= k < type_ids_of(s).len() && type_ids_of(s)[k] == t;
                    assert(type_ids_of(s.drop_last())[k] == t);
                }
                let i = choose|i: int| 0 <= i < s.drop_last().len() && access_type_id(#[trigger] s.drop_last()[i]) == Some(t);
                assert(s[i] == s.drop_last()[i]);
            } else {
                assert(access_type_id(s[s.len() - 1]) == Some(t));
            }
        }
        if exists|i: int| 0 <= i < s.len() && access_type_id(#[trigger] s[i]) == Some(t) {
            let i = choose|i: int| 0 <= i < s.len() && access_type_id(#[trigger] s[i]) == Some(t);
            if i == s.len() - 1 {
                assert(type_ids_of(s)[type_ids_of(s).len() - 1] == t);
            } else {
                assert(s.drop_last()[i] == s[i]);
                let k = choose|k: int| 0 <= k < type_ids_of(s.drop_last()).len() && type_ids_of(s.drop_last())[k] == t;
                assert(type_ids_of(s)[k] == t);
            }
        }
    }
}

/// A query that borrows nothing mutably never conflicts.
pub proof fn law_read_only_query_conflict_free(s: Seq<QueryAccess>)
    requires
        !any_mutable(s),
    ensures
        conflict_free(s),
{
    assert forall|j: int| !#[trigger] conflict_at(s, j) by {
        if 0 <= j < s.len() {
            assert(!(s[j] is Write));
        }
    }
}

/// A mutable borrow of a type that an earlier item of the same query
/// already borrows, mutably or not, is a conflict.
pub proof fn law_mutable_reborrow_conflicts(s: Seq<QueryAccess>, i: int, j: int, t: TypeId)
    requires
        0 <= i < j < s.len(),
        access_type_id(s[i]) == Some(t),
        s[j] == QueryAccess::Write(t),
    ensures
        !conflict_free(s),
{
    lemma_type_ids_of_contains(s.take(j), t);
    assert(s.take(j)[i] == s[i]);
    assert(conflict_at(s, j));
}

impl QueryAccess {
    /// Whether the item borrows its component mutably.
    pub fn is_mutable(&self) -> (r: bool)
        ensures
            r == (*self is Write),
    {
        match self {
            QueryAccess::Write(_) => true,
            _ => false,
        }
    }

    /// The component type the item refers to; none for the entity id.
    pub fn get_component_type_id(&self) -> (r: Option<TypeId>)
        ensures
            r == access_type_id(*self),
    {
        match self {
            QueryAccess::Read(t) => Some(*t),
            QueryAccess::Write(t) => Some(*t),
            QueryAccess::EntityId => None,
        }
    }

    /// Records the item's borrow in `type_ids`, the types borrowed by the
    /// earlier items of the same query. A mutable borrow of a type that is
    /// already there is a conflict, and then nothing is recorded.
    pub fn check_access(&self, type_ids: &mut Vec<TypeId>) -> (r: Result<(), QueryError>)
        ensures
            match *self {
                QueryAccess::Write(t) => if old(type_ids)@.contains(t) {
                    r == Err::<(), QueryError>(QueryError::ConflictingAccess(t)) && final(type_ids)@ == old(type_ids)@
                } else {
                    r is Ok && final(type_ids)@ == old(type_ids)@.push(t)
                },
                QueryAccess::Read(t) => r is Ok && final(type_ids)@ == old(type_ids)@.push(t),
                QueryAccess::EntityId => r is Ok && final(type_ids)@ == old(type_ids)@,
            },
    {
        match self {
            QueryAccess::Read(t) => {
                type_ids.push(*t);
                Ok(())
            },
            QueryAccess::Write(t) => {
                if contains_type_id(type_ids, t) {
                    Err(QueryError::ConflictingAccess(*t))
                } else {
                    type_ids.push(*t);
                    Ok(())
                }
            },
            QueryAccess::EntityId => Ok(()),
        }
    }
}

/// Whether any item of the query is a mutable borrow.
pub fn is_mutable(accesses: &[QueryAccess]) -> (r: bool)
    ensures
        r == any_mutable(accesses@),
{
    let mut i: usize = 0;
    while i < accesses.len()
        invariant
            0 <= i <= accesses@.len(),
            forall|j: int| 0 <= j < i ==> !(#[trigger] accesses@[j] is Write),
        decreases accesses@.len() - i,
    {
        if accesses[i].is_mutable() {
            return true;
        }
        i = i + 1;
    }
    false
}

/// The component types the query needs, in the order of its items.
pub fn get_component_type_ids(accesses: &[QueryAccess]) -> (r: Vec<TypeId>)
    ensures
        r@ == type_ids_of(accesses@),
{
    let mut type_ids: Vec<TypeId> = Vec::new();
    let mut i: usize = 0;
    while i < accesses.len()
        invariant
            0 <= i <= accesses@.len(),
            type_ids@ == type_ids_of(accesses@.take(i as int)),
        decreases accesses@.len() - i,
    {
        proof {
            lemma_type_ids_of_push(accesses@.take(i as int), accesses@[i as int]);
            assert(accesses@.take(i as int).push(accesses@[i as int]) =~= accesses@.take(i + 1));
        }
        match accesses[i].get_component_type_id() {
            Some(t) => type_ids.push(t),
            None => {},
        }
        i = i + 1;
    }
    assert(accesses@.take(accesses@.len() as int) =~= accesses@);
    type_ids
}

/// Checks the items of a query in order for borrows that conflict: a
/// mutable borrow of a type that an earlier item already borrows. The first
/// such borrow is reported.
pub fn check_query_access(accesses: &[QueryAccess]) -> (r: Result<(), QueryError>)
    ensures
        r is Ok <==> conflict_free(accesses@),
        r matches Err(e) ==> e == QueryError::ConflictingAccess(first_conflict(accesses@)->0),
        r matches Err(e) ==> first_conflict(accesses@) is Some,
{
    let mut accessed_types: Vec<TypeId> = Vec::new();
    let mut i: usize = 0;
    while i < accesses.len()
        invariant
            0 <= i <= accesses@.len(),
            accessed_types@ == type_ids_of(accesses@.take(i as int)),
            forall|j: int| 0 <= j < i ==> !#[trigger] conflict_at(accesses@, j),
        decreases accesses@.len() - i,
    {
        proof {
            lemma_type_ids_of_push(accesses@.take(i as int), accesses@[i as int]);
            assert(accesses@.take(i as int).push(accesses@[i as int]) =~= accesses@.take(i + 1));
        }
        let checked = accesses[i].check_access(&mut accessed_types);
        match checked {
            Err(e) => {
                proof {
                    assert(conflict_at(accesses@, i as int));
                    assert(!conflict_free(accesses@));
                    let j = choose|j: int| conflict_at(accesses@, j) && forall|k: int| 0 <= k < j ==> !#[trigger] conflict_at(accesses@, k);
                    assert(j == i) by {
                        if j < i {
                        } else if j > i {
                            assert(!conflict_at(accesses@, i as int));
                        }
                    }
                }
                return Err(e);
            },
            Ok(()) => {
                assert(!conflict_at(accesses@, i as int));
            },
        }
        i = i + 1;
    }
    Ok(())
}

/// The identity of the type `T`, as `TypeId::of` gives it. Nothing is
/// stated of it: the compiler chooses the values.
#[verifier::external_body]
pub(crate) fn type_id_of<T: ?Sized + 'static>() -> (r: TypeId) {
    TypeId::of::<T>()
}

/// The data type a query item yields.
pub trait QueryItemData<'w> {
    type Item;
}

/// One item of a query: a component borrow or the entity id.
pub trait QueryItem<'w>: QueryItemData<'w> {
    /// Whether the item borrows its component mutably.
    spec fn borrows_mutably() -> bool;

    /// Whether the item is the entity id rather than a component.
    spec fn is_entity_id() -> bool;

    /// What the item asks of the world.
    fn access() -> (r: QueryAccess)
        ensures
            r is Write <==> Self::borrows_mutably(),
            r is EntityId <==> Self::is_entity_id(),
    ;
}

impl<'w, T: Component> QueryItemData<'w> for &'w T {
    type Item = &'w T;
}

impl<'w, T: Component> QueryItem<'w> for &'w T {
    open spec fn borrows_mutably() -> bool {
        false
    }

    open spec fn is_entity_id() -> bool {
        false
    }

    fn access() -> (r: QueryAccess) {
        QueryAccess::Read(type_id_of::<T>())
    }
}

impl<'w, T: Component> QueryItemData<'w> for &'w mut T {
    type Item = &'w mut T;
}

impl<'w, T: Component> QueryItem<'w> for &'w mut T {
    open spec fn borrows_mutably() -> bool {
        true
    }

    open spec fn is_entity_id() -> bool {
        false
    }

    fn access() -> (r: QueryAccess) {
        QueryAccess::Write(type_id_of::<T>())
    }
}

impl<'w> QueryItemData<'w> for Entity {
    type Item = Entity;
}

impl<'w> QueryItem<'w> for Entity {
    open spec fn borrows_mutably() -> bool {
        false
    }

    open spec fn is_entity_id() -> bool {
        true
    }

    fn access() -> (r: QueryAccess)
        ensures
            r == QueryAccess::EntityId,
    {
        QueryAccess::EntityId
    }
}

/// The combined data type a query yields.
pub trait WorldQueryData<'w> {
    type Item;
}

/// `a` is the access of an item that borrows mutably exactly when
/// `mutably` and is the entity id exactly when `entity`.
pub open spec fn access_of_kind(a: QueryAccess, mutably: bool, entity: bool) -> bool {
    &&& (a is Write <==> mutably)
    &&& (a is EntityId <==> entity)
}

/// A whole query: a tuple of query items.
pub trait WorldQuery<'w>: WorldQueryData<'w> {
    /// What the items of the query ask of the world, in order.
    fn accesses() -> Vec<QueryAccess>;
}

impl<'w, Q1: QueryItem<'w>> WorldQueryData<'w> for (Q1,) {
    type Item = (Q1::Item,);
}

impl<'w, Q1: QueryItem<'w>> WorldQuery<'w> for (Q1,) {
    fn accesses() -> (r: Vec<QueryAccess>)
        ensures
            r@.len() == 1,
            access_of_kind(r@[0], Q1::borrows_mutably(), Q1::is_entity_id()),
    {
        vec![Q1::access()]
    }
}

impl<'w, Q1: QueryItem<'w>, Q2: QueryItem<'w>> WorldQueryData<'w> for (Q1, Q2) {
    type Item = (Q1::Item, Q2::Item);
}

impl<'w, Q1: QueryItem<'w>, Q2: QueryItem<'w>> WorldQuery<'w> for (Q1, Q2) {
    fn accesses() -> (r: Vec<QueryAccess>)
        ensures
            r@.len() == 2,
            access_of_kind(r@[0], Q1::borrows_mutably(), Q1::is_entity_id()),
            access_of_kind(r@[1], Q2::borrows_mutably(), Q2::is_entity_id()),
    {
        vec![Q1::access(), Q2::access()]
    }
}

impl<'w, Q1: QueryItem<'w>, Q2: QueryItem<'w>, Q3: QueryItem<'w>> WorldQueryData<'w> for (Q1, Q2, Q3) {
    type Item = (Q1::Item, Q2::Item, Q3::Item);
}

impl<'w, Q1: QueryItem<'w>, Q2: QueryItem<'w>, Q3: QueryItem<'w>> WorldQuery<'w> for (Q1, Q2, Q3) {
    fn accesses() -> (r: Vec<QueryAccess>)
        ensures
            r@.len() == 3,
            access_of_kind(r@[0], Q1::borrows_mutably(), Q1::is_entity_id()),
            access_of_kind(r@[1], Q2::borrows_mutably(), Q2::is_entity_id()),
            access_of_kind(r@[2], Q3::borrows_mutably(), Q3::is_entity_id()),
    {
        vec![Q1::access(), Q2::access(), Q3::access()]
    }
}

impl<'w, Q1: QueryItem<'w>, Q2: QueryItem<'w>, Q3: QueryItem<'w>, Q4: QueryItem<'w>> WorldQueryData<'w> for (Q1, Q2, Q3, Q4) {
    type Item = (Q1::Item, Q2::Item, Q3::Item, Q4::Item);
}

impl<'w, Q1: QueryItem<'w>, Q2: QueryItem<'w>, Q3: QueryItem<'w>, Q4: QueryItem<'w>> WorldQuery<'w> for (Q1, Q2, Q3, Q4) {
    fn accesses() -> (r: Vec<QueryAccess>)
        ensures
            r@.len() == 4,
            access_of_kind(r@[0], Q1::borrows_mutably(), Q1::is_entity_id()),
            access_of_kind(r@[1], Q2::borrows_mutably(), Q2::is_entity_id()),
            access_of_kind(r@[2], Q3::borrows_mutably(), Q3::is_entity_id()),
            access_of_kind(r@[3], Q4::borrows_mutably(), Q4::is_entity_id()),
    {
        vec![Q1::access(), Q2::access(), Q3::access(), Q4::access()]
    }
}

impl<'w, Q1: QueryItem<'w>, Q2: QueryItem<'w>, Q3: QueryItem<'w>, Q4: QueryItem<'w>, Q5: QueryItem<'w>> WorldQueryData<'w> for (Q1, Q2, Q3, Q4, Q5) {
    type Item = (Q1::Item, Q2::Item, Q3::Item, Q4::Item, Q5::Item);
}

impl<'w, Q1: QueryItem<'w>, Q2: QueryItem<'w>, Q3: QueryItem<'w>, Q4: QueryItem<'w>, Q5: QueryItem<'w>> WorldQuery<'w> for (Q1, Q2, Q3, Q4, Q5) {
    fn accesses() -> (r: Vec<QueryAccess>)
        ensures
            r@.len() == 5,
            access_of_kind(r@[0], Q1::borrows_mutably(), Q1::is_entity_id()),
            access_of_kind(r@[1], Q2::borrows_mutably(), Q2::is_entity_id()),
            access_of_kind(r@[2], Q3::borrows_mutably(), Q3::is_entity_id()),
            access_of_kind(r@[3], Q4::borrows_mutably(), Q4::is_entity_id()),
            access_of_kind(r@[4], Q5::borrows_mutably(), Q5::is_entity_id()),
    {
        vec![Q1::access(), Q2::access(), Q3::access(), Q4::access(), Q5::access()]
    }
}

/// The entities a query visits, in visiting order, each once: the entities
/// of the world that hold every component type the query needs.
pub struct QueryIter {
    matching_entities: Vec<Entity>,
    position: usize,
}

/// `s` holds exactly the entities of `world` that hold all of `required`,
/// each once.
pub open spec fn is_match_list(world: &EcsWorld, required: Seq<TypeId>, s: Seq<Entity>) -> bool {
    &&& s.no_duplicates()
    &&& forall|e: Entity| s.contains(e) <==> (world.entities().contains_key(e)
        && has_all(world.entities()[e], required))
}

impl QueryIter {
    /// The entities not visited yet, in visiting order.
    pub closed spec fn remaining(&self) -> Seq<Entity> {
        self.matching_entities@.skip(self.position as int)
    }

    #[verifier::type_invariant]
    closed spec fn wf(&self) -> bool {
        self.position <= self.matching_entities@.len()
    }

    /// Starts an immutable query over `world`: a query whose items do not
    /// conflict and that borrows nothing mutably.
    pub fn new(world: &EcsWorld, accesses: &[QueryAccess]) -> (r: QueryIter)
        requires
            conflict_free(accesses@),
            !any_mutable(accesses@),
        ensures
            is_match_list(world, type_ids_of(accesses@), r.remaining()),
    {
        let required_types = get_component_type_ids(accesses);
        let matching_entities = world.query_entities(required_types.as_slice());
        let it = QueryIter { matching_entities, position: 0 };
        assert(it.remaining() =~= it.matching_entities@);
        it
    }

    /// The next entity to visit, if any.
    pub fn next(&mut self) -> (r: Option<Entity>)
        ensures
            old(self).remaining().len() == 0 ==> r is None && final(self).remaining() == old(self).remaining(),
            old(self).remaining().len() > 0 ==> r == Some(old(self).remaining()[0])
                && final(self).remaining() == old(self).remaining().drop_first(),
    {
        proof { use_type_invariant(&*self); }
        if self.position < self.matching_entities.len() {
            let e = self.matching_entities[self.position];
            self.position = self.position + 1;
            assert(self.remaining() =~= old(self).remaining().drop_first());
            Some(e)
        } else {
            None
        }
    }
}

/// The entities a mutable query visits: like [`QueryIter`], for queries
/// that may borrow components mutably.
pub struct QueryIterMut {
    matching_entities: Vec<Entity>,
    position: usize,
}

impl QueryIterMut {
    /// The entities not visited yet, in visiting order.
    pub closed spec fn remaining(&self) -> Seq<Entity> {
        self.matching_entities@.skip(self.position as int)
    }

    #[verifier::type_invariant]
    closed spec fn wf(&self) -> bool {
        self.position <= self.matching_entities@.len()
    }

    /// Starts a query over `world` that may borrow mutably: a query whose
    /// items do not conflict.
    pub fn new(world: &EcsWorld, accesses: &[QueryAccess]) -> (r: QueryIterMut)
        requires
            conflict_free(accesses@),
        ensures
            is_match_list(world, type_ids_of(accesses@), r.remaining()),
    {
        let required_types = get_component_type_ids(accesses);
        let matching_entities = world.query_entities(required_types.as_slice());
        let it = QueryIterMut { matching_entities, position: 0 };
        assert(it.remaining() =~= it.matching_entities@);
        it
    }

    /// The next entity to visit, if any.
    pub fn next(&mut self) -> (r: Option<Entity>)
        ensures
            old(self).remaining().len() == 0 ==> r is None && final(self).remaining() == old(self).remaining(),
            old(self).remaining().len() > 0 ==> r == Some(old(self).remaining()[0])
                && final(self).remaining() == old(self).remaining().drop_first(),
    {
        proof { use_type_invariant(&*self); }
        if self.position < self.matching_entities.len() {
            let e = self.matching_entities[self.position];
            self.position = self.position + 1;
            assert(self.remaining() =~= old(self).remaining().drop_first());
            Some(e)
        } else {
            None
        }
    }
}

impl EcsWorld {
    /// Starts an immutable query (see [`QueryIter::new`]).
    pub fn query(&self, accesses: &[QueryAccess]) -> (r: QueryIter)
        requires
            conflict_free(accesses@),
            !any_mutable(accesses@),
        ensures
            is_match_list(self, type_ids_of(accesses@), r.remaining()),
    {
        QueryIter::new(self, accesses)
    }

    /// Starts a query that may borrow mutably (see [`QueryIterMut::new`]).
    pub fn query_mut(&self, accesses: &[QueryAccess]) -> (r: QueryIterMut)
        requires
            conflict_free(accesses@),
        ensures
            is_match_list(self, type_ids_of(accesses@), r.remaining()),
    {
        QueryIterMut::new(self, accesses)
    }

    /// Whether an immutable query (items that do not conflict, nothing
    /// borrowed mutably) may fetch the data of `entity_id`: whether the
    /// entity is tracked and holds every component type the query needs.
    pub fn query_entity(&self, accesses: &[QueryAccess], entity_id: Entity) -> (r: bool)
        requires
            conflict_free(accesses@),
            !any_mutable(accesses@),
        ensures
            r == (self.entities().contains_key(entity_id)
                && has_all(self.entities()[entity_id], type_ids_of(accesses@))),
    {
        let required_types = get_component_type_ids(accesses);
        self.entity_has_components(entity_id, required_types.as_slice())
    }

    /// Whether a query that may borrow mutably (items that do not conflict)
    /// may fetch the data of `entity_id`: whether the entity is tracked and
    /// holds every component type the query needs.
    pub fn query_entity_mut(&self, accesses: &[QueryAccess], entity_id: Entity) -> (r: bool)
        requires
            conflict_free(accesses@),
        ensures
            r == (self.entities().contains_key(entity_id)
                && has_all(self.entities()[entity_id], type_ids_of(accesses@))),
    {
        let required_types = get_component_type_ids(accesses);
        self.entity_has_components(entity_id, required_types.as_slice())
    }
}

} // verus!
