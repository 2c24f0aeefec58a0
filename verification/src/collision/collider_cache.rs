use vstd::prelude::*;
use crate::ecs::world::Entity;

verus! {

/// The set of entity pairs whose colliders were found overlapping.
pub struct ColliderCache {
    pairs: Vec<(Entity, Entity)>,
}

impl View for ColliderCache {
    type V = Set<(Entity, Entity)>;

    closed spec fn view(&self) -> Set<(Entity, Entity)> {
        self.pairs@.to_set()
    }
}

impl ColliderCache {
    /// The pairs held, each once, in the order they were first added.
    pub closed spec fn order(&self) -> Seq<(Entity, Entity)> {
        self.pairs@
    }

    #[verifier::type_invariant]
    closed spec fn wf(&self) -> bool {
        self.pairs@.no_duplicates()
    }

    /// An empty cache.
    pub fn new() -> (r: Self)
        ensures
            r@ == Set::<(Entity, Entity)>::empty(),
            r.order() == Seq::<(Entity, Entity)>::empty(),
    {
        let r = ColliderCache { pairs: Vec::new() };
        assert(r@ =~= Set::<(Entity, Entity)>::empty());
        r
    }

    /// Whether the cache holds `pair`.
    pub fn contains(&self, pair: (Entity, Entity)) -> (r: bool)
        ensures
            r == self@.contains(pair),
    {
        let mut i: usize = 0;
        while i < self.pairs.len()
            invariant
                0 <= i <= self.pairs@.len(),
                forall|j: int| 0 <= j < i ==> self.pairs@[j] != pair,
            decreases self.pairs@.len() - i,
        {
            let (a, b) = self.pairs[i];
            if a == pair.0 && b == pair.1 {
                assert(self.pairs@[i as int] == pair);
                return true;
            }
            i = i + 1;
        }
        false
    }

    /// Adds `pair`; the result tells whether it was not there before.
    pub fn insert(&mut self, pair: (Entity, Entity)) -> (r: bool)
        ensures
            r == !old(self)@.contains(pair),
            final(self)@ == old(self)@.insert(pair),
            final(self).order() == if r { old(self).order().push(pair) } else { old(self).order() },
    {
        proof { use_type_invariant(&*self); }
        if self.contains(pair) {
            assert(old(self)@.insert(pair) =~= old(self)@);
            false
        } else {
            let mut pairs = Vec::new();
            std::mem::swap(&mut pairs, &mut self.pairs);
            let ghost before = pairs@;
            pairs.push(pair);
            assert(pairs@.no_duplicates()) by {
                assert forall|a: int, b: int| 0 <= a < b < pairs@.len() implies pairs@[a] != pairs@[b] by {
                    if b == pairs@.len() - 1 {
                        assert(before.contains(pairs@[a]));
                    } else {
                        assert(before[a] == pairs@[a] && before[b] == pairs@[b]);
                    }
                }
            }
            self.pairs = pairs;
            assert(self@ =~= old(self)@.insert(pair)) by {
                assert forall|p: (Entity, Entity)| self@.contains(p) <==> old(self)@.insert(pair).contains(p) by {
                    if self@.contains(p) && p != pair {
                        let k = choose|k: int| 0 <= k < self.pairs@.len() && self.pairs@[k] == p;
                        assert(before[k] == p);
                    }
                    if old(self)@.contains(p) {
                        let k = choose|k: int| 0 <= k < before.len() && before[k] == p;
                        assert(self.pairs@[k] == p);
                    }
                    if p == pair {
                        assert(self.pairs@[self.pairs@.len() - 1] == p);
                    }
                }
            }
            true
        }
    }

    /// The number of pairs held.
    pub fn len(&self) -> (r: usize)
        ensures
            r == self@.len(),
    {
        proof {
            use_type_invariant(&*self);
            self.pairs@.unique_seq_to_set();
        }
        self.pairs.len()
    }

    /// Forgets every pair.
    pub fn clear(&mut self)
        ensures
            final(self)@ == Set::<(Entity, Entity)>::empty(),
            final(self).order() == Seq::<(Entity, Entity)>::empty(),
    {
        self.pairs = Vec::new();
        assert(self@ =~= Set::<(Entity, Entity)>::empty());
    }

    /// The pairs held, each once, in the order they were first added.
    pub fn pairs(&self) -> (r: Vec<(Entity, Entity)>)
        ensures
            r@ == self.order(),
            r@.no_duplicates(),
            r@.to_set() == self@,
    {
        proof { use_type_invariant(&*self); }
        let mut out: Vec<(Entity, Entity)> = Vec::new();
        let mut i: usize = 0;
        while i < self.pairs.len()
            invariant
                0 <= i <= self.pairs@.len(),
                out@ == self.pairs@.take(i as int),
            decreases self.pairs@.len() - i,
        {
            let (a, b) = self.pairs[i];
            out.push((a, b));
            assert(out@ =~= self.pairs@.take(i + 1));
            i = i + 1;
        }
        assert(out@ =~= self.pairs@);
        out
    }
}

} // verus!
