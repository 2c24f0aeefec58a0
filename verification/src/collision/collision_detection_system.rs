use vstd::prelude::*;
use crate::ecs::world::Entity;
use crate::collision::collider_cache::ColliderCache;

verus! {

/// Some pair `i < j` of `colliders` names the entities of `pair` and the
/// overlap test may answer `answer` for it.
pub open spec fn pair_tested<C, F: Fn(&C, &C) -> bool>(
    colliders: Seq<(Entity, C)>,
    would_collide: F,
    pair: (Entity, Entity),
    answer: bool,
) -> bool {
    exists|i: int, j: int|
        0 <= i < j < colliders.len()
        && pair == (colliders[i].0, colliders[j].0)
        && call_ensures(would_collide, (&colliders[i].1, &colliders[j].1), answer)
}

/// The cache `after` is what detection over `colliders` makes of the
/// cache `before`: every pair it adds was tested true for some `i < j`,
/// every pair `i < j` is in it or was tested false, and the pairs of
/// `before` stay.
pub open spec fn detected<C, F: Fn(&C, &C) -> bool>(
    colliders: Seq<(Entity, C)>,
    would_collide: F,
    before: Set<(Entity, Entity)>,
    after: Set<(Entity, Entity)>,
) -> bool {
    &&& forall|p: (Entity, Entity)| #[trigger] after.contains(p) ==>
        before.contains(p) || pair_tested(colliders, would_collide, p, true)
    &&& forall|i: int, j: int| 0 <= i < j < colliders.len() ==>
        after.contains((colliders[i].0, colliders[j].0))
        || call_ensures(would_collide, (&colliders[i].1, &colliders[j].1), false)
    &&& forall|p: (Entity, Entity)| before.contains(p) ==> #[trigger] after.contains(p)
}

/// The overlap test gives one answer for each pair `i < j` of `colliders`.
pub open spec fn deterministic_on<C, F: Fn(&C, &C) -> bool>(colliders: Seq<(Entity, C)>, would_collide: F) -> bool {
    forall|i: int, j: int, a: bool, b: bool|
        0 <= i < j < colliders.len()
        && #[trigger] call_ensures(would_collide, (&colliders[i].1, &colliders[j].1), a)
        && #[trigger] call_ensures(would_collide, (&colliders[i].1, &colliders[j].1), b)
        ==> a == b
}

/// Detection run a second time on the same colliders, with an overlap test
/// that answers each pair the same way every time, adds nothing: the cache
/// after the second run is the cache after the first.
pub proof fn law_detection_idempotent<C, F: Fn(&C, &C) -> bool>(
    colliders: Seq<(Entity, C)>,
    would_collide: F,
    first: Set<(Entity, Entity)>,
    once: Set<(Entity, Entity)>,
    twice: Set<(Entity, Entity)>,
)
    requires
        deterministic_on(colliders, would_collide),
        detected(colliders, would_collide, first, once),
        detected(colliders, would_collide, once, twice),
    ensures
        twice == once,
{
    assert forall|p: (Entity, Entity)| twice.contains(p) implies once.contains(p) by {
        if !once.contains(p) {
            assert(pair_tested(colliders, would_collide, p, true));
            let (i, j) = choose|i: int, j: int|
                0 <= i < j < colliders.len()
                && p == (colliders[i].0, colliders[j].0)
                && call_ensures(would_collide, (&colliders[i].1, &colliders[j].1), true);
            assert(once.contains((colliders[i].0, colliders[j].0))
                || call_ensures(would_collide, (&colliders[i].1, &colliders[j].1), false));
        }
    }
    assert(twice =~= once);
}

/// Collision detection: tests every pair `i < j` of the colliders with
/// `would_collide` and adds the pair of their entities to the cache when
/// the test answers true. Pairs already in the cache stay.
pub fn run<C, F: Fn(&C, &C) -> bool>(
    collider_cache: &mut ColliderCache,
    colliders: &Vec<(Entity, C)>,
    would_collide: &F,
)
    requires
        forall|i: int, j: int| 0 <= i < j < colliders@.len()
            ==> call_requires(*would_collide, (&colliders@[i].1, &colliders@[j].1)),
    ensures
        detected(colliders@, *would_collide, old(collider_cache)@, final(collider_cache)@),
{
    let n = colliders.len();
    let mut i: usize = 0;
    while i < n
        invariant
            n == colliders@.len(),
            0 <= i <= n,
            forall|a: int, b: int| 0 <= a < b < colliders@.len()
                ==> call_requires(*would_collide, (&colliders@[a].1, &colliders@[b].1)),
            forall|p: (Entity, Entity)| #[trigger] collider_cache@.contains(p) ==>
                old(collider_cache)@.contains(p) || pair_tested(colliders@, *would_collide, p, true),
            forall|a: int, b: int| 0 <= a < i && a < b < colliders@.len() ==>
                collider_cache@.contains((colliders@[a].0, colliders@[b].0))
                || call_ensures(*would_collide, (&colliders@[a].1, &colliders@[b].1), false),
            forall|p: (Entity, Entity)| old(collider_cache)@.contains(p) ==> #[trigger] collider_cache@.contains(p),
        decreases n - i,
    {
        let (entity_ith, collider_ith) = &colliders[i];
        let mut j: usize = i + 1;
        while j < n
            invariant
                n == colliders@.len(),
                0 <= i < n,
                i + 1 <= j <= n,
                *entity_ith == colliders@[i as int].0,
                *collider_ith == colliders@[i as int].1,
                forall|a: int, b: int| 0 <= a < b < colliders@.len()
                    ==> call_requires(*would_collide, (&colliders@[a].1, &colliders@[b].1)),
                forall|p: (Entity, Entity)| #[trigger] collider_cache@.contains(p) ==>
                    old(collider_cache)@.contains(p) || pair_tested(colliders@, *would_collide, p, true),
                forall|a: int, b: int| 0 <= a < i && a < b < colliders@.len() ==>
                    collider_cache@.contains((colliders@[a].0, colliders@[b].0))
                    || call_ensures(*would_collide, (&colliders@[a].1, &colliders@[b].1), false),
                forall|b: int| i < b < j ==>
                    collider_cache@.contains((colliders@[i as int].0, colliders@[b].0))
                    || call_ensures(*would_collide, (&colliders@[i as int].1, &colliders@[b].1), false),
                forall|p: (Entity, Entity)| old(collider_cache)@.contains(p) ==> #[trigger] collider_cache@.contains(p),
            decreases n - j,
        {
            let (entity_jth, collider_jth) = &colliders[j];
            let hit = would_collide(collider_ith, collider_jth);
            if hit {
                let pair = (*entity_ith, *entity_jth);
                assert(pair_tested(colliders@, *would_collide, pair, true));
                let _ = collider_cache.insert(pair);
            }
            j = j + 1;
        }
        i = i + 1;
    }
}

} // verus!
