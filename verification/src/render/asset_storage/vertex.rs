use vstd::prelude::*;
use std::collections::HashMap;

verus! {

/// A face of an OBJ model, by the indices of its corners: position only,
/// position and texture coordinate, position and normal, or all three
/// (position, texture coordinate, normal), as the file gives them.
pub enum Polygon {
    P(Vec<usize>),
    PT(Vec<(usize, usize)>),
    PN(Vec<(usize, usize)>),
    PTN(Vec<(usize, usize, usize)>),
}

/// An integer type that mesh indices are stored in.
pub trait IndexValue: Copy + Sized {
    /// The greatest index the type holds.
    spec fn max_index() -> nat;

    /// The index as a number.
    spec fn as_nat(self) -> nat;

    /// The index `n`, when the type holds it.
    fn from_usize(n: usize) -> (r: Option<Self>)
        ensures
            r is Some <==> n <= Self::max_index(),
            r matches Some(v) ==> v.as_nat() == n,
    ;
}

/// `num_traits::FromPrimitive::from_usize` for `u16`: the value when it fits
/// in 16 bits, none otherwise.
#[verifier::external_body]
fn u16_from_usize(n: usize) -> (r: Option<u16>)
    ensures
        r == if n <= u16::MAX { Some(n as u16) } else { None::<u16> },
{
    <u16 as num_traits::FromPrimitive>::from_usize(n)
}

/// `num_traits::FromPrimitive::from_usize` for `u32`: the value when it fits
/// in 32 bits, none otherwise.
#[verifier::external_body]
fn u32_from_usize(n: usize) -> (r: Option<u32>)
    ensures
        r == if n <= u32::MAX { Some(n as u32) } else { None::<u32> },
{
    <u32 as num_traits::FromPrimitive>::from_usize(n)
}

impl IndexValue for u16 {
    open spec fn max_index() -> nat {
        u16::MAX as nat
    }

    open spec fn as_nat(self) -> nat {
        self as nat
    }

    fn from_usize(n: usize) -> (r: Option<u16>) {
        u16_from_usize(n)
    }
}

impl IndexValue for u32 {
    open spec fn max_index() -> nat {
        u32::MAX as nat
    }

    open spec fn as_nat(self) -> nat {
        self as nat
    }

    fn from_usize(n: usize) -> (r: Option<u32>) {
        u32_from_usize(n)
    }
}

/// The numbers an index buffer holds.
pub open spec fn index_values<I: IndexValue>(ib: Seq<I>) -> Seq<nat> {
    ib.map_values(|v: I| v.as_nat())
}

/// The position indices of a face when it is a triangle; nothing otherwise.
pub open spec fn triangle_positions(p: Polygon) -> Seq<usize> {
    match p {
        Polygon::P(v) => if v@.len() == 3 { v@ } else { Seq::empty() },
        Polygon::PT(v) => if v@.len() == 3 { v@.map_values(|c: (usize, usize)| c.0) } else { Seq::empty() },
        Polygon::PN(v) => if v@.len() == 3 { v@.map_values(|c: (usize, usize)| c.0) } else { Seq::empty() },
        Polygon::PTN(v) => if v@.len() == 3 { v@.map_values(|c: (usize, usize, usize)| c.0) } else { Seq::empty() },
    }
}

/// The position indices of all triangle corners of `polygons`, in order.
pub open spec fn position_corners(polygons: Seq<Polygon>) -> Seq<usize>
    decreases polygons.len(),
{
    if polygons.len() == 0 {
        Seq::empty()
    } else {
        position_corners(polygons.drop_last()) + triangle_positions(polygons.last())
    }
}

/// The elements of `s` that are at most `max`, in order.
pub open spec fn at_most(s: Seq<usize>, max: nat) -> Seq<nat>
    decreases s.len(),
{
    if s.len() == 0 {
        Seq::empty()
    } else if s.last() <= max {
        at_most(s.drop_last(), max).push(s.last() as nat)
    } else {
        at_most(s.drop_last(), max)
    }
}

/// The index buffer of a model whose vertices are its positions, in file
/// order: the position index of every corner of every triangle, skipping
/// the indices that `I` cannot hold. Faces that are not triangles add
/// nothing.
pub fn process_positions<I: IndexValue>(polygons: &Vec<Polygon>) -> (ib: Vec<I>)
    ensures
        index_values(ib@) == at_most(position_corners(polygons@), I::max_index()),
{
    let mut ib: Vec<I> = Vec::new();
    let mut p: usize = 0;
    while p < polygons.len()
        invariant
            0 <= p <= polygons@.len(),
            index_values(ib@) == at_most(position_corners(polygons@.take(p as int)), I::max_index()),
        decreases polygons@.len() - p,
    {
        let corners = triangle_corner_positions(&polygons[p]);
        let mut k: usize = 0;
        while k < corners.len()
            invariant
                0 <= p < polygons@.len(),
                0 <= k <= corners@.len(),
                corners@ == triangle_positions(polygons@[p as int]),
                index_values(ib@) == at_most(position_corners(polygons@.take(p as int)) + corners@.take(k as int), I::max_index()),
            decreases corners@.len() - k,
        {
            let pi = corners[k];
            let ghost prefix = position_corners(polygons@.take(p as int)) + corners@.take(k as int);
            assert((prefix.push(pi)).drop_last() =~= prefix);
            assert(prefix.push(pi) =~= position_corners(polygons@.take(p as int)) + corners@.take(k + 1));
            match I::from_usize(pi) {
                Some(v) => {
                    ib.push(v);
                    assert(index_values(ib@) =~= at_most(prefix, I::max_index()).push(pi as nat));
                },
                None => {},
            }
            k = k + 1;
        }
        assert(polygons@.take(p + 1).drop_last() =~= polygons@.take(p as int));
        assert(corners@.take(corners@.len() as int) =~= corners@);
        p = p + 1;
    }
    assert(polygons@.take(polygons@.len() as int) =~= polygons@);
    ib
}

/// The position indices of a face when it is a triangle; nothing otherwise.
fn triangle_corner_positions(polygon: &Polygon) -> (r: Vec<usize>)
    ensures
        r@ == triangle_positions(*polygon),
{
    let mut r: Vec<usize> = Vec::new();
    match polygon {
        Polygon::P(v) => {
            if v.len() == 3 {
                r.push(v[0]);
                r.push(v[1]);
                r.push(v[2]);
                assert(r@ =~= v@);
            }
        },
        Polygon::PT(v) | Polygon::PN(v) => {
            if v.len() == 3 {
                r.push(v[0].0);
                r.push(v[1].0);
                r.push(v[2].0);
                assert(r@ =~= v@.map_values(|c: (usize, usize)| c.0));
            }
        },
        Polygon::PTN(v) => {
            if v.len() == 3 {
                r.push(v[0].0);
                r.push(v[1].0);
                r.push(v[2].0);
                assert(r@ =~= v@.map_values(|c: (usize, usize, usize)| c.0));
            }
        },
    }
    assert(r@ =~= triangle_positions(*polygon));
    r
}


/// A triangle corner of a face with positions, texture coordinates and
/// normals: the three indices as the file gives them.
pub type Corner = (usize, usize, usize);

/// The corners of a face when it is a triangle with positions, texture
/// coordinates and normals; nothing otherwise.
pub open spec fn triangle_ptn(p: Polygon) -> Seq<Corner> {
    match p {
        Polygon::PTN(v) => if v@.len() == 3 { v@ } else { Seq::empty() },
        _ => Seq::empty(),
    }
}

/// The corners of all such triangles of `polygons`, in order.
pub open spec fn ptn_corners(polygons: Seq<Polygon>) -> Seq<Corner>
    decreases polygons.len(),
{
    if polygons.len() == 0 {
        Seq::empty()
    } else {
        ptn_corners(polygons.drop_last()) + triangle_ptn(polygons.last())
    }
}

/// The distinct elements of `s` in the order of their first occurrence.
pub open spec fn distinct_in_order<K>(s: Seq<K>) -> Seq<K>
    decreases s.len(),
{
    if s.len() == 0 {
        Seq::empty()
    } else {
        let d = distinct_in_order(s.drop_last());
        if d.contains(s.last()) { d } else { d.push(s.last()) }
    }
}

/// The first `n` elements of `s`, or all of them when there are fewer.
pub open spec fn first_n<K>(s: Seq<K>, n: nat) -> Seq<K> {
    if s.len() <= n { s } else { s.take(n as int) }
}

/// For each element of `s` that `keys` holds, in order, its position in `keys`.
pub open spec fn positions_in<K>(s: Seq<K>, keys: Seq<K>) -> Seq<nat>
    decreases s.len(),
{
    if s.len() == 0 {
        Seq::empty()
    } else if keys.contains(s.last()) {
        positions_in(s.drop_last(), keys).push(keys.index_of(s.last()) as nat)
    } else {
        positions_in(s.drop_last(), keys)
    }
}

proof fn lemma_distinct_contains<K>(s: Seq<K>, x: K)
    ensures
        distinct_in_order(s).contains(x) <==> s.contains(x),
        distinct_in_order(s).no_duplicates(),
    decreases s.len(),
{
    if s.len() > 0 {
        lemma_distinct_contains(s.drop_last(), x);
        lemma_distinct_contains(s.drop_last(), s.last());
        let d = distinct_in_order(s.drop_last());
        if s.contains(x) && !s.drop_last().contains(x) {
            let i = choose|i: int| 0 <= i < s.len() && s[i] == x;
            if i < s.len() - 1 {
                assert(s.drop_last()[i] == x);
            }
            if !d.contains(s.last()) {
                assert(d.push(s.last())[d.len() as int] == x);
            }
        }
        if s.drop_last().contains(x) {
            let i = choose|i: int| 0 <= i < s.drop_last().len() && s.drop_last()[i] == x;
            assert(s[i] == x);
        }
        if distinct_in_order(s).contains(x) && !d.contains(x) {
            assert(x == s.last());
            assert(s[s.len() - 1] == x);
        }
        if !d.contains(s.last()) {
            let e = d.push(s.last());
            assert forall|a: int, b: int| 0 <= a < b < e.len() implies e[a] != e[b] by {
                if b == e.len() - 1 {
                    assert(d.contains(e[a]));
                }
            }
            if d.contains(x) {
                let i = choose|i: int| 0 <= i < d.len() && d[i] == x;
                assert(e[i] == x);
            }
        }
    }
}

proof fn lemma_index_of_unique<K>(keys: Seq<K>, k: int)
    requires
        keys.no_duplicates(),
        0 <= k < keys.len(),
    ensures
        keys.index_of(keys[k]) == k,
{
    assert(keys.contains(keys[k]));
}

proof fn lemma_positions_in_extend<K>(s: Seq<K>, keys: Seq<K>, c: K)
    requires
        !s.contains(c),
        keys.no_duplicates(),
        !keys.contains(c),
    ensures
        positions_in(s, keys.push(c)) == positions_in(s, keys),
    decreases s.len(),
{
    if s.len() > 0 {
        let x = s.last();
        assert(s[s.len() - 1] == x);
        assert(!s.drop_last().contains(c)) by {
            if s.drop_last().contains(c) {
                let i = choose|i: int| 0 <= i < s.drop_last().len() && s.drop_last()[i] == c;
                assert(s[i] == c);
            }
        }
        lemma_positions_in_extend(s.drop_last(), keys, c);
        let e = keys.push(c);
        if keys.contains(x) {
            let k = choose|k: int| 0 <= k < keys.len() && keys[k] == x;
            lemma_index_of_unique(keys, k);
            assert(e[k] == x);
            assert(e.no_duplicates()) by {
                assert forall|a: int, b: int| 0 <= a < b < e.len() implies e[a] != e[b] by {
                    if b == e.len() - 1 {
                        assert(keys.contains(e[a]));
                    }
                }
            }
            lemma_index_of_unique(e, k);
        } else {
            assert(!e.contains(x)) by {
                if e.contains(x) {
                    let k = choose|k: int| 0 <= k < e.len() && e[k] == x;
                    if k < keys.len() {
                        assert(keys[k] == x);
                    }
                }
            }
        }
    }
}

/// The elements of `s` that `keys` holds, in order.
pub open spec fn kept_in<K>(s: Seq<K>, keys: Seq<K>) -> Seq<K>
    decreases s.len(),
{
    if s.len() == 0 {
        Seq::empty()
    } else if keys.contains(s.last()) {
        kept_in(s.drop_last(), keys).push(s.last())
    } else {
        kept_in(s.drop_last(), keys)
    }
}

/// Every index of the index buffer refers to a vertex, and to the vertex
/// made from the corner it stands for: the `k`-th index names the key of
/// the `k`-th corner that has a vertex.
pub proof fn law_indices_refer_to_vertices(s: Seq<Corner>, keys: Seq<Corner>)
    requires
        keys.no_duplicates(),
    ensures
        positions_in(s, keys).len() == kept_in(s, keys).len(),
        forall|k: int| 0 <= k < positions_in(s, keys).len() ==> #[trigger] positions_in(s, keys)[k] < keys.len(),
        forall|k: int| 0 <= k < positions_in(s, keys).len()
            ==> keys[#[trigger] positions_in(s, keys)[k] as int] == kept_in(s, keys)[k],
    decreases s.len(),
{
    if s.len() > 0 {
        law_indices_refer_to_vertices(s.drop_last(), keys);
        if keys.contains(s.last()) {
            let m = choose|m: int| 0 <= m < keys.len() && keys[m] == s.last();
            lemma_index_of_unique(keys, m);
            let sub = positions_in(s.drop_last(), keys);
            let ksub = kept_in(s.drop_last(), keys);
            assert forall|k: int| 0 <= k < positions_in(s, keys).len() implies
                #[trigger] positions_in(s, keys)[k] < keys.len()
                && keys[positions_in(s, keys)[k] as int] == kept_in(s, keys)[k] by {
                if k < sub.len() {
                    assert(positions_in(s, keys)[k] == sub[k]);
                    assert(kept_in(s, keys)[k] == ksub[k]);
                } else {
                    assert(positions_in(s, keys)[k] == m);
                    assert(kept_in(s, keys)[k] == s.last());
                }
            }
        }
    }
}

/// When the vertex list holds every distinct corner, every triangle corner
/// gets an index: the index buffer has one entry per corner.
pub proof fn law_every_corner_indexed(s: Seq<Corner>, keys: Seq<Corner>)
    requires
        forall|k: int| 0 <= k < s.len() ==> keys.contains(#[trigger] s[k]),
    ensures
        positions_in(s, keys).len() == s.len(),
        kept_in(s, keys) == s,
    decreases s.len(),
{
    if s.len() > 0 {
        assert forall|k: int| 0 <= k < s.drop_last().len() implies keys.contains(#[trigger] s.drop_last()[k]) by {
            assert(s.drop_last()[k] == s[k]);
        }
        law_every_corner_indexed(s.drop_last(), keys);
        assert(keys.contains(s[s.len() - 1]));
        assert(s.drop_last().push(s.last()) =~= s);
    }
}

/// The vertex list of a model is the distinct corners of its triangles
/// whenever there are no more of them than the index type can address.
pub proof fn law_all_distinct_corners_kept(s: Seq<Corner>, cap: nat)
    requires
        distinct_in_order(s).len() <= cap,
    ensures
        first_n(distinct_in_order(s), cap) == distinct_in_order(s),
        forall|k: int| 0 <= k < s.len() ==> first_n(distinct_in_order(s), cap).contains(#[trigger] s[k]),
{
    assert forall|k: int| 0 <= k < s.len() implies first_n(distinct_in_order(s), cap).contains(#[trigger] s[k]) by {
        lemma_distinct_contains(s, s[k]);
    }
}

/// Every index of a position-only index buffer fits the index type.
pub proof fn law_position_indices_fit(s: Seq<usize>, max: nat)
    ensures
        forall|k: int| 0 <= k < at_most(s, max).len() ==> #[trigger] at_most(s, max)[k] <= max,
    decreases s.len(),
{
    if s.len() > 0 {
        law_position_indices_fit(s.drop_last(), max);
        let sub = at_most(s.drop_last(), max);
        assert forall|k: int| 0 <= k < at_most(s, max).len() implies #[trigger] at_most(s, max)[k] <= max by {
            if k < sub.len() {
                assert(at_most(s, max)[k] == sub[k]);
            }
        }
    }
}

/// The cache from corners to the indices of their vertices: corners are
/// grouped by position index, each group listing texture index, normal
/// index and vertex index.
pub open spec fn cache_matches<I: IndexValue>(cache: Map<usize, Vec<(usize, usize, I)>>, keys: Seq<Corner>) -> bool {
    &&& forall|pi: usize, k: int| #![trigger cache[pi]@[k]] cache.contains_key(pi) && 0 <= k < cache[pi]@.len() ==>
        cache[pi]@[k].2.as_nat() < keys.len() && keys[cache[pi]@[k].2.as_nat() as int] == (pi, cache[pi]@[k].0, cache[pi]@[k].1)
    &&& forall|m: int| #![trigger keys[m]] 0 <= m < keys.len() ==>
        cache.contains_key(keys[m].0) && exists|k: int| 0 <= k < cache[keys[m].0]@.len()
            && cache[keys[m].0]@[k].0 == keys[m].1 && cache[keys[m].0]@[k].1 == keys[m].2
            && cache[keys[m].0]@[k].2.as_nat() == m
}

proof fn lemma_cache_insert<I: IndexValue>(
    old_cache: Map<usize, Vec<(usize, usize, I)>>,
    cache: Map<usize, Vec<(usize, usize, I)>>,
    old_keys: Seq<Corner>,
    c: Corner,
    v: I,
    group: Vec<(usize, usize, I)>,
)
    requires
        cache_matches(old_cache, old_keys),
        !old_keys.contains(c),
        v.as_nat() == old_keys.len(),
        group@ == (if old_cache.contains_key(c.0) { old_cache[c.0]@ } else { Seq::empty() }).push((c.1, c.2, v)),
        cache == old_cache.insert(c.0, group),
    ensures
        cache_matches(cache, old_keys.push(c)),
{
    let keys = old_keys.push(c);
    let n = old_keys.len();
    let old_group = if old_cache.contains_key(c.0) { old_cache[c.0]@ } else { Seq::empty() };
    assert forall|pi: usize, j: int| #![trigger cache[pi]@[j]] cache.contains_key(pi) && 0 <= j < cache[pi]@.len() implies
        cache[pi]@[j].2.as_nat() < keys.len() && keys[cache[pi]@[j].2.as_nat() as int] == (pi, cache[pi]@[j].0, cache[pi]@[j].1)
    by {
        if pi == c.0 {
            if j < old_group.len() {
                assert(old_cache.contains_key(pi));
                assert(old_cache[pi]@[j] == cache[pi]@[j]);
            }
        } else {
            assert(old_cache[pi] == cache[pi]);
        }
    }
    assert forall|m: int| #![trigger keys[m]] 0 <= m < keys.len() implies
        cache.contains_key(keys[m].0) && exists|j: int| 0 <= j < cache[keys[m].0]@.len()
            && cache[keys[m].0]@[j].0 == keys[m].1 && cache[keys[m].0]@[j].1 == keys[m].2
            && cache[keys[m].0]@[j].2.as_nat() == m
    by {
        let key = keys[m];
        if m == n as int {
            let j = cache[c.0]@.len() - 1;
            assert(cache[key.0]@[j] == (c.1, c.2, v));
        } else {
            assert(old_keys[m] == key);
            let j = choose|j: int| 0 <= j < old_cache[key.0]@.len()
                && old_cache[key.0]@[j].0 == key.1 && old_cache[key.0]@[j].1 == key.2
                && old_cache[key.0]@[j].2.as_nat() == m;
            if key.0 == c.0 {
                assert(old_group == old_cache[key.0]@);
                assert(cache[key.0]@[j] == old_cache[key.0]@[j]);
            } else {
                assert(cache[key.0] == old_cache[key.0]);
            }
        }
    }
}

/// The vertex index of `corner`, if the cache knows it.
fn cache_lookup<I: IndexValue>(cache: &HashMap<usize, Vec<(usize, usize, I)>>, corner: Corner, keys: Ghost<Seq<Corner>>) -> (r: Option<I>)
    requires
        cache_matches(cache@, keys@),
        keys@.no_duplicates(),
    ensures
        r matches Some(v) ==> v.as_nat() < keys@.len() && keys@[v.as_nat() as int] == corner,
        r is None ==> !keys@.contains(corner),
{
    broadcast use vstd::std_specs::hash::group_hash_axioms;
    match cache.get(&corner.0) {
        Some(group) => {
            let mut k: usize = 0;
            while k < group.len()
                invariant
                    cache@.contains_key(corner.0),
                    *group == cache@[corner.0],
                    cache_matches(cache@, keys@),
                    keys@.no_duplicates(),
                    0 <= k <= group@.len(),
                    forall|j: int| 0 <= j < k ==> !(group@[j].0 == corner.1 && group@[j].1 == corner.2),
                decreases group@.len() - k,
            {
                let (ti, ni, v) = group[k];
                if ti == corner.1 && ni == corner.2 {
                    proof {
                        let e = cache@[corner.0]@[k as int];
                        assert(e == group@[k as int]);
                        assert(cache@.contains_key(corner.0) && 0 <= k < cache@[corner.0]@.len());
                        assert(e.2.as_nat() < keys@.len() && keys@[e.2.as_nat() as int] == (corner.0, e.0, e.1));
                    }
                    return Some(v);
                }
                k = k + 1;
            }
            proof {
                if keys@.contains(corner) {
                    let m = choose|m: int| 0 <= m < keys@.len() && keys@[m] == corner;
                    assert(keys@[m] == corner);
                }
            }
            None
        },
        None => {
            proof {
                if keys@.contains(corner) {
                    let m = choose|m: int| 0 <= m < keys@.len() && keys@[m] == corner;
                    assert(keys@[m] == corner);
                }
            }
            None
        },
    }
}

/// Builds the vertex and index buffers of a model whose vertices combine
/// position, texture coordinate and normal. Each distinct corner of the
/// triangles (with all three indices) becomes one vertex, in the order of
/// first occurrence, as long as `I` can hold its index; the index buffer
/// refers every corner to its vertex and skips the corners that got none.
/// Faces of any other kind, and faces that are not triangles, add nothing.
/// Returns the corners that became vertices and the index buffer.
#[verifier::rlimit(50)]
#[verifier::spinoff_prover]
pub fn process_triangle_corners<I: IndexValue>(polygons: &Vec<Polygon>) -> (r: (Vec<Corner>, Vec<I>))
    ensures
        r.0@ == first_n(distinct_in_order(ptn_corners(polygons@)), I::max_index() + 1),
        index_values(r.1@) == positions_in(ptn_corners(polygons@), r.0@),
        r.0@.no_duplicates(),
{
    broadcast use vstd::std_specs::hash::group_hash_axioms;
    let mut keys: Vec<Corner> = Vec::new();
    let mut ib: Vec<I> = Vec::new();
    let mut cache: HashMap<usize, Vec<(usize, usize, I)>> = HashMap::new();
    let ghost cap: nat = I::max_index() + 1;
    proof {
        assert(ptn_corners(polygons@.take(0)) =~= Seq::<Corner>::empty());
    }
    let mut p: usize = 0;
    while p < polygons.len()
        invariant
            0 <= p <= polygons@.len(),
            cap == I::max_index() + 1,
            keys@ == first_n(distinct_in_order(ptn_corners(polygons@.take(p as int))), cap),
            keys@.no_duplicates(),
            index_values(ib@) == positions_in(ptn_corners(polygons@.take(p as int)), keys@),
            cache_matches(cache@, keys@),
        decreases polygons@.len() - p,
    {
        let corners = triangle_corners(&polygons[p]);
        let ghost base = ptn_corners(polygons@.take(p as int));
        let mut k: usize = 0;
        while k < corners.len()
            invariant
                0 <= p < polygons@.len(),
                cap == I::max_index() + 1,
                base == ptn_corners(polygons@.take(p as int)),
                0 <= k <= corners@.len(),
                corners@ == triangle_ptn(polygons@[p as int]),
                keys@ == first_n(distinct_in_order(base + corners@.take(k as int)), cap),
                keys@.no_duplicates(),
                index_values(ib@) == positions_in(base + corners@.take(k as int), keys@),
                cache_matches(cache@, keys@),
            decreases corners@.len() - k,
        {
            let c = corners[k];
            let ghost prefix = base + corners@.take(k as int);
            let ghost d = distinct_in_order(prefix);
            proof {
                assert(prefix.push(c).drop_last() =~= prefix);
                assert(prefix.push(c) =~= base + corners@.take(k + 1));
                assert(prefix.push(c).last() == c);
                lemma_distinct_contains(prefix, c);
            }
            match cache_lookup(&cache, c, Ghost(keys@)) {
                Some(v) => {
                    proof {
                        lemma_index_of_unique(keys@, v.as_nat() as int);
                        assert(keys@.contains(c));
                        // keys is a prefix of d, so d already holds c
                        assert(d.contains(c)) by {
                            let m = v.as_nat() as int;
                            if d.len() <= cap {
                                assert(d[m] == c);
                            } else {
                                assert(d.take(cap as int)[m] == c);
                                assert(d[m] == c);
                            }
                        }
                    }
                    ib.push(v);
                    assert(index_values(ib@) =~= positions_in(prefix, keys@).push(keys@.index_of(c) as nat));
                },
                None => {
                    let n = keys.len();
                    match I::from_usize(n) {
                        Some(v) => {
                            proof {
                                // nothing was cut off, so keys is all of d
                                assert(keys@ == d);
                                lemma_positions_in_extend(prefix, keys@, c);
                            }
                            let ghost old_keys = keys@;
                            keys.push(c);
                            proof {
                                assert(keys@.no_duplicates()) by {
                                    assert forall|a: int, b: int| 0 <= a < b < keys@.len() implies keys@[a] != keys@[b] by {
                                        if b == keys@.len() - 1 {
                                            assert(old_keys.contains(keys@[a]));
                                        } else {
                                            assert(old_keys[a] == keys@[a] && old_keys[b] == keys@[b]);
                                        }
                                    }
                                }
                                lemma_index_of_unique(keys@, n as int);
                            }
                            ib.push(v);
                            assert(index_values(ib@) =~= positions_in(prefix, old_keys).push(n as nat));
                            let ghost old_cache = cache@;
                            let group_opt = cache.remove(&c.0);
                            let mut group = match group_opt {
                                Some(g) => g,
                                None => Vec::new(),
                            };
                            group.push((c.1, c.2, v));
                            let ghost new_group = group;
                            let _ = cache.insert(c.0, group);
                            proof {
                                assert(cache@ =~= old_cache.insert(c.0, new_group));
                                lemma_cache_insert(old_cache, cache@, old_keys, c, v, new_group);
                            }
                        },
                        None => {
                            // the vertex list is full: nothing changes
                            proof {
                                assert(keys@.len() == cap);
                                assert(d.len() >= cap);
                                if !d.contains(c) {
                                    assert(d.push(c).take(cap as int) =~= d.take(cap as int));
                                }
                            }
                        },
                    }
                },
            }
            k = k + 1;
        }
        proof {
            assert(polygons@.take(p + 1).drop_last() =~= polygons@.take(p as int));
            assert(corners@.take(corners@.len() as int) =~= corners@);
        }
        p = p + 1;
    }
    assert(polygons@.take(polygons@.len() as int) =~= polygons@);
    (keys, ib)
}

/// The corners of a face when it is a triangle with positions, texture
/// coordinates and normals; nothing otherwise.
fn triangle_corners(polygon: &Polygon) -> (r: Vec<Corner>)
    ensures
        r@ == triangle_ptn(*polygon),
{
    let mut r: Vec<Corner> = Vec::new();
    match polygon {
        Polygon::PTN(v) => {
            if v.len() == 3 {
                r.push(v[0]);
                r.push(v[1]);
                r.push(v[2]);
                assert(r@ =~= v@);
            }
        },
        _ => {},
    }
    assert(r@ =~= triangle_ptn(*polygon));
    r
}

/// How many corners a face has, as the file gives them.
pub open spec fn corner_count(p: Polygon) -> nat {
    match p {
        Polygon::P(v) => v@.len(),
        Polygon::PT(v) => v@.len(),
        Polygon::PN(v) => v@.len(),
        Polygon::PTN(v) => v@.len(),
    }
}

/// The position index of corner `k` of a face, as the file gives it.
pub open spec fn position_at(p: Polygon, k: int) -> usize {
    match p {
        Polygon::P(v) => v@[k],
        Polygon::PT(v) => v@[k].0,
        Polygon::PN(v) => v@[k].0,
        Polygon::PTN(v) => v@[k].0,
    }
}

/// `p` is a triangle with positions, texture coordinates and normals, and
/// `c` is one of its corners as the file gives it.
pub open spec fn ptn_triangle_has(p: Polygon, c: Corner) -> bool {
    p matches Polygon::PTN(v) && v@.len() == 3 && v@.contains(c)
}

proof fn lemma_concat_contains<A>(a: Seq<A>, b: Seq<A>, x: A)
    ensures
        (a + b).contains(x) <==> (a.contains(x) || b.contains(x)),
{
    if (a + b).contains(x) {
        let i = choose|i: int| 0 <= i < (a + b).len() && (a + b)[i] == x;
        if i < a.len() {
            assert(a[i] == x);
        } else {
            assert(b[i - a.len()] == x);
        }
    }
    if a.contains(x) {
        let i = choose|i: int| 0 <= i < a.len() && a[i] == x;
        assert((a + b)[i] == x);
    }
    if b.contains(x) {
        let i = choose|i: int| 0 <= i < b.len() && b[i] == x;
        assert((a + b)[a.len() + i] == x);
    }
}

/// A face adds the position indices of its corners, as the file gives
/// them and in order, when it is a triangle, and nothing otherwise.
pub proof fn law_triangle_adds_its_positions(p: Polygon)
    ensures
        triangle_positions(p).len() == (if corner_count(p) == 3 { 3nat } else { 0nat }),
        forall|k: int| 0 <= k < triangle_positions(p).len() ==> #[trigger] triangle_positions(p)[k] == position_at(p, k),
{
}

/// The position index buffer is made of whole triangles: its length is a
/// multiple of three, and it holds exactly the position indices of the
/// corners of the triangle faces.
pub proof fn law_positions_of_triangles(polygons: Seq<Polygon>, x: usize)
    ensures
        position_corners(polygons).len() % 3 == 0,
        position_corners(polygons).contains(x) <==> exists|i: int, k: int|
            0 <= i < polygons.len() && corner_count(polygons[i]) == 3 && 0 <= k < 3
            && #[trigger] position_at(polygons[i], k) == x,
    decreases polygons.len(),
{
    if polygons.len() > 0 {
        let rest = polygons.drop_last();
        let last = polygons.last();
        law_positions_of_triangles(rest, x);
        law_triangle_adds_its_positions(last);
        lemma_concat_contains(position_corners(rest), triangle_positions(last), x);
        if exists|i: int, k: int| 0 <= i < polygons.len() && corner_count(polygons[i]) == 3 && 0 <= k < 3
            && #[trigger] position_at(polygons[i], k) == x {
            let (i, k) = choose|i: int, k: int| 0 <= i < polygons.len() && corner_count(polygons[i]) == 3 && 0 <= k < 3
                && #[trigger] position_at(polygons[i], k) == x;
            if i < rest.len() {
                assert(rest[i] == polygons[i]);
                assert(position_at(rest[i], k) == x);
            } else {
                assert(triangle_positions(last)[k] == x);
            }
        }
        if triangle_positions(last).contains(x) {
            let k = choose|k: int| 0 <= k < triangle_positions(last).len() && triangle_positions(last)[k] == x;
            assert(position_at(polygons[polygons.len() - 1], k) == x);
        }
        if position_corners(rest).contains(x) {
            let (i, k) = choose|i: int, k: int| 0 <= i < rest.len() && corner_count(rest[i]) == 3 && 0 <= k < 3
                && #[trigger] position_at(rest[i], k) == x;
            assert(polygons[i] == rest[i]);
            assert(position_at(polygons[i], k) == x);
        }
    }
}

/// When every position index fits the index type, the index buffer keeps
/// them all, unchanged and in order.
pub proof fn law_position_indices_all_kept(s: Seq<usize>, max: nat)
    requires
        forall|k: int| 0 <= k < s.len() ==> #[trigger] s[k] <= max,
    ensures
        at_most(s, max).len() == s.len(),
        forall|k: int| 0 <= k < s.len() ==> #[trigger] at_most(s, max)[k] == s[k],
    decreases s.len(),
{
    if s.len() > 0 {
        assert forall|k: int| 0 <= k < s.drop_last().len() implies #[trigger] s.drop_last()[k] <= max by {
            assert(s.drop_last()[k] == s[k]);
        }
        law_position_indices_all_kept(s.drop_last(), max);
        assert(s[s.len() - 1] <= max);
        assert forall|k: int| 0 <= k < s.len() implies #[trigger] at_most(s, max)[k] == s[k] by {
            if k < s.len() - 1 {
                assert(at_most(s.drop_last(), max)[k] == s.drop_last()[k]);
            }
        }
    }
}

/// A triangle with positions, texture coordinates and normals adds its
/// corners exactly as the file gives them, in order; any other face adds
/// nothing.
pub proof fn law_triangle_adds_its_corners(p: Polygon)
    ensures
        triangle_ptn(p).len() == (if p is PTN && corner_count(p) == 3 { 3nat } else { 0nat }),
        forall|k: int| 0 <= k < triangle_ptn(p).len() ==>
            (p matches Polygon::PTN(v) && #[trigger] triangle_ptn(p)[k] == v@[k]),
{
}

/// The corners of a model are exactly the corners, as the file gives them,
/// of its triangles with positions, texture coordinates and normals.
pub proof fn law_corners_as_given(polygons: Seq<Polygon>, c: Corner)
    ensures
        ptn_corners(polygons).contains(c) <==> exists|i: int| 0 <= i < polygons.len() && #[trigger] ptn_triangle_has(polygons[i], c),
    decreases polygons.len(),
{
    if polygons.len() > 0 {
        let rest = polygons.drop_last();
        let last = polygons.last();
        law_corners_as_given(rest, c);
        lemma_concat_contains(ptn_corners(rest), triangle_ptn(last), c);
        if exists|i: int| 0 <= i < polygons.len() && #[trigger] ptn_triangle_has(polygons[i], c) {
            let i = choose|i: int| 0 <= i < polygons.len() && #[trigger] ptn_triangle_has(polygons[i], c);
            if i < rest.len() {
                assert(rest[i] == polygons[i]);
                assert(ptn_triangle_has(rest[i], c));
            } else {
                assert(ptn_triangle_has(last, c));
            }
        }
        if ptn_corners(rest).contains(c) {
            let i = choose|i: int| 0 <= i < rest.len() && #[trigger] ptn_triangle_has(rest[i], c);
            assert(polygons[i] == rest[i]);
            assert(ptn_triangle_has(polygons[i], c));
        }
        if triangle_ptn(last).contains(c) {
            assert(ptn_triangle_has(polygons[polygons.len() - 1], c));
        }
    }
}

/// Every vertex key of a model is a corner of one of its triangles with
/// positions, texture coordinates and normals, exactly as the file gives
/// it: position, texture coordinate and normal indices unchanged.
pub proof fn law_keys_are_given_corners(polygons: Seq<Polygon>, cap: nat, k: int)
    requires
        0 <= k < first_n(distinct_in_order(ptn_corners(polygons)), cap).len(),
    ensures
        exists|i: int| 0 <= i < polygons.len()
            && #[trigger] ptn_triangle_has(polygons[i], first_n(distinct_in_order(ptn_corners(polygons)), cap)[k]),
{
    let d = distinct_in_order(ptn_corners(polygons));
    let c = first_n(d, cap)[k];
    assert(d[k] == c);
    assert(d.contains(c));
    lemma_distinct_contains(ptn_corners(polygons), c);
    law_corners_as_given(polygons, c);
}

/// The OpenGL enum value `gl::FLOAT`, the type code of 32-bit floats in
/// vertex attribute layouts: 0x1406 in the OpenGL registry.
#[verifier::external_body]
pub(crate) fn gl_float() -> (r: u32)
    ensures
        r == 0x1406u32,
{
    gl::FLOAT
}

/// One attribute of a vertex layout: its shader location, its number of
/// components and the OpenGL type code of each component.
pub struct GLVertexAttribute {
    location: u32,
    size: i32,
    types: u32,
}

/// The attributes of a vertex layout, in location order.
pub struct GLVertexFormat {
    attributes: Vec<GLVertexAttribute>,
}

impl GLVertexAttribute {
    pub closed spec fn location_spec(&self) -> u32 { self.location }
    pub closed spec fn size_spec(&self) -> i32 { self.size }
    pub closed spec fn types_spec(&self) -> u32 { self.types }

    /// An attribute at `location` of `size` components of type `types`.
    pub fn new(location: u32, size: i32, types: u32) -> (r: Self)
        ensures
            r.location_spec() == location,
            r.size_spec() == size,
            r.types_spec() == types,
    {
        GLVertexAttribute { location, size, types }
    }

    /// The byte offset of the attribute in a vertex whose attributes all
    /// have its size: location times float size times component count.
    /// Only float attributes are laid out.
    fn offset_of(&self) -> (r: usize)
        requires
            self.types_spec() == 0x1406u32,
            self.location_spec() as int * 4 <= usize::MAX,
            self.location_spec() as int * 4 * (self.size_spec() as usize) <= usize::MAX,
        ensures
            r == self.location_spec() as int * 4 * (self.size_spec() as usize),
    {
        let size_of_float: usize = 4;
        self.location as usize * size_of_float * self.size as usize
    }
}

impl GLVertexFormat {
    pub closed spec fn attributes_spec(&self) -> Seq<GLVertexAttribute> { self.attributes@ }

    /// A format with the given attributes.
    pub fn new(attributes: Vec<GLVertexAttribute>) -> (r: Self)
        ensures
            r.attributes_spec() == attributes@,
    {
        GLVertexFormat { attributes }
    }
}

/// `a` is a float attribute at `location` of `size` components.
pub open spec fn float_attribute(a: GLVertexAttribute, location: u32, size: i32) -> bool {
    a.location_spec() == location && a.size_spec() == size && a.types_spec() == 0x1406u32
}

/// A vertex type that knows its OpenGL buffer layout.
pub trait GLVertexLayout {
    fn layout() -> GLVertexFormat;
}

/// The layout of position-only vertices: three floats at location 0.
pub fn vertex_layout() -> (r: GLVertexFormat)
    ensures
        r.attributes_spec().len() == 1,
        float_attribute(r.attributes_spec()[0], 0, 3),
{
    GLVertexFormat::new(vec![GLVertexAttribute::new(0, 3, gl_float())])
}

/// The layout of vertices with position and texture coordinate: three
/// floats at location 0, two at location 1.
pub fn vertex_uv_layout() -> (r: GLVertexFormat)
    ensures
        r.attributes_spec().len() == 2,
        float_attribute(r.attributes_spec()[0], 0, 3),
        float_attribute(r.attributes_spec()[1], 1, 2),
{
    GLVertexFormat::new(vec![
        GLVertexAttribute::new(0, 3, gl_float()),
        GLVertexAttribute::new(1, 2, gl_float()),
    ])
}

/// The layout of vertices with position, normal and texture coordinate:
/// three floats at location 0, three at location 1, two at location 2.
pub fn vertex_uvn_layout() -> (r: GLVertexFormat)
    ensures
        r.attributes_spec().len() == 3,
        float_attribute(r.attributes_spec()[0], 0, 3),
        float_attribute(r.attributes_spec()[1], 1, 3),
        float_attribute(r.attributes_spec()[2], 2, 2),
{
    GLVertexFormat::new(vec![
        GLVertexAttribute::new(0, 3, gl_float()),
        GLVertexAttribute::new(1, 3, gl_float()),
        GLVertexAttribute::new(2, 2, gl_float()),
    ])
}

} // verus!
