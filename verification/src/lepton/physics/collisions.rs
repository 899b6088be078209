use vstd::prelude::*;
use rustc_hash::{FxHashMap, FxHasher};
use std::hash::BuildHasherDefault;

verus! {

/// The hasher of `FxHashMap`.
#[verifier::external_type_specification]
#[verifier::external_body]
pub struct ExFxHasher(FxHasher);

/// The builder of the hashers of `FxHashMap`.
#[verifier::external_type_specification]
#[verifier::external_body]
#[verifier::reject_recursive_types(H)]
pub struct ExBuildHasherDefault<H>(BuildHasherDefault<H>);

/// Calls `HashMap::get` on an `FxHashMap`: the value stored under `k`, if
/// any. (vstd's contract for `get` holds only for hash builders it knows
/// to be valid, which `BuildHasherDefault<FxHasher>` is not declared to be;
/// the Fx hash of a `usize` depends on the value alone.)
#[verifier::external_body]
fn fx_get(m: &FxHashMap<usize, u32>, k: usize) -> (r: Option<u32>)
    ensures
        r == (if m@.contains_key(k) { Some(m@[k]) } else { None::<u32> }),
{
    m.get(&k).copied()
}

/// Calls `HashMap::insert` on an `FxHashMap`: afterwards `k` maps to `v`
/// and every other key is unchanged.
#[verifier::external_body]
fn fx_insert(m: &mut FxHashMap<usize, u32>, k: usize, v: u32)
    ensures
        final(m)@ == old(m)@.insert(k, v),
{
    m.insert(k, v);
}

/// The number of times `key` occurs among the first `n` of `ids`.
pub open spec fn occurrences(ids: Seq<usize>, key: usize) -> nat
    decreases ids.len(),
{
    if ids.len() == 0 {
        0
    } else {
        occurrences(ids.drop_last(), key) + if ids.last() == key { 1nat } else { 0nat }
    }
}

/// The multiplicity table of `ids`: each id that occurs, with how often.
pub open spec fn multiplicities(ids: Seq<usize>) -> Map<usize, u32> {
    Map::new(|k: usize| ids.contains(k), |k: usize| occurrences(ids, k) as u32)
}

proof fn lemma_occurrences_bound(ids: Seq<usize>, key: usize)
    ensures
        occurrences(ids, key) <= ids.len(),
        occurrences(ids, key) > 0 <==> ids.contains(key),
    decreases ids.len(),
{
    if ids.len() > 0 {
        let rest = ids.drop_last();
        lemma_occurrences_bound(rest, key);
        if ids.contains(key) {
            let k = choose|k: int| 0 <= k < ids.len() && ids[k] == key;
            if k < rest.len() {
                assert(rest[k] == key);
            }
        }
        if rest.contains(key) {
            let k = choose|k: int| 0 <= k < rest.len() && rest[k] == key;
            assert(ids[k] == key);
        }
        if ids.last() == key {
            assert(ids[ids.len() - 1] == key);
        }
    }
}

proof fn lemma_multiplicities_push(ids: Seq<usize>, k: usize)
    ensures
        multiplicities(ids.push(k)) == multiplicities(ids).insert(k, (occurrences(ids, k) + 1) as u32),
{
    let next = ids.push(k);
    assert(next.drop_last() =~= ids);
    assert forall|x: usize| next.contains(x) <==> (ids.contains(x) || x == k) by {
        if next.contains(x) {
            let j = choose|j: int| 0 <= j < next.len() && next[j] == x;
            if j < ids.len() {
                assert(ids[j] == x);
            }
        }
        if ids.contains(x) {
            let j = choose|j: int| 0 <= j < ids.len() && ids[j] == x;
            assert(next[j] == x);
        }
        if x == k {
            assert(next[ids.len() as int] == x);
        }
    }
    assert(multiplicities(next) =~= multiplicities(ids).insert(k, (occurrences(ids, k) + 1) as u32));
}

fn count_ids(ids: [usize; 4]) -> (r: FxHashMap<usize, u32>)
    ensures
        r@ == multiplicities(ids@),
{
    let mut m: FxHashMap<usize, u32> = FxHashMap::default();
    let mut i: usize = 0;
    while i < 4
        invariant
            i <= 4,
            m@ == multiplicities(ids@.take(i as int)),
        decreases 4 - i,
    {
        let k = ids[i];
        proof {
            let before = ids@.take(i as int);
            assert(ids@.take(i + 1) =~= before.push(k));
            lemma_multiplicities_push(before, k);
            lemma_occurrences_bound(before, k);
        }
        match fx_get(&m, k) {
            Some(c) => fx_insert(&mut m, k, c + 1),
            None => fx_insert(&mut m, k, 1),
        }
        i = i + 1;
    }
    assert(ids@.take(4) =~= ids@);
    m
}

/// Calls `HashMap::iter` on an `FxHashMap` and copies out its entries:
/// every key of the map once, with its value, in the map's own order
/// (which the contract leaves open).
#[verifier::external_body]
fn fx_entries(m: &FxHashMap<usize, u32>) -> (r: Vec<(usize, u32)>)
    ensures
        forall|i: int| 0 <= i < r@.len() ==> m@.contains_key(#[trigger] r@[i].0) && m@[r@[i].0] == r@[i].1,
        forall|i: int, j: int| 0 <= i < j < r@.len() ==> (#[trigger] r@[i]).0 != (#[trigger] r@[j]).0,
        forall|k: usize| m@.contains_key(k) ==> exists|i: int| 0 <= i < r@.len() && (#[trigger] r@[i]).0 == k,
{
    m.iter().map(|(k, v)| (*k, *v)).collect()
}

/// How two convex shapes touch, by the identifiers of the features that
/// meet: the first shape's, then the second's.
#[derive(PartialEq, Eq, Copy, Clone, Debug)]
pub enum CollisionType {
    EdgeEdge((usize, usize), (usize, usize)),
    FaceVertex((usize, usize, usize), (usize,)),
    VertexFace((usize,), (usize, usize, usize)),
    FaceFace((usize, usize, usize), (usize, usize, usize)),
}

/// Why the contact could not be classified.
#[derive(PartialEq, Eq, Structural, Copy, Clone, Debug)]
pub enum CollisionError {
    /// A vertex meets a face, but the face's shape offers fewer than three
    /// distinct vertices.
    MissingFaceVertices,
}

/// The first shape's vertex identifiers of the simplex's vertices.
pub open spec fn firsts(t: Seq<(usize, usize)>) -> Seq<usize> {
    t.map_values(|p: (usize, usize)| p.0)
}

/// The second shape's vertex identifiers of the simplex's vertices.
pub open spec fn seconds(t: Seq<(usize, usize)>) -> Seq<usize> {
    t.map_values(|p: (usize, usize)| p.1)
}

/// Whether `entries` lists the multiplicity table of `ids`: each distinct
/// id once, with the number of times it occurs, in some order.
pub open spec fn lists_counts(entries: Seq<(usize, u32)>, ids: Seq<usize>) -> bool {
    &&& forall|i: int|
        0 <= i < entries.len() ==> ids.contains(#[trigger] entries[i].0) && entries[i].1 == occurrences(
            ids,
            entries[i].0,
        )
    &&& forall|i: int, j: int| 0 <= i < j < entries.len() ==> (#[trigger] entries[i]).0 != (#[trigger] entries[j]).0
    &&& forall|k: usize| ids.contains(k) ==> exists|i: int| 0 <= i < entries.len() && (#[trigger] entries[i]).0 == k
}

/// The id of the last of the first `n` entries whose count is `c`.
pub open spec fn last_with_count(entries: Seq<(usize, u32)>, c: u32, n: nat) -> Option<usize>
    decreases n,
{
    if n == 0 {
        None
    } else if entries[n - 1].1 == c {
        Some(entries[n - 1].0)
    } else {
        last_with_count(entries, c, (n - 1) as nat)
    }
}

/// Of the vertices whose id on one shape (the first's when `by_first`) is
/// (when `equal`) or is not `key`, the ids on one shape (the first's when
/// `take_first`), in vertex order.
pub open spec fn matching(t: Seq<(usize, usize)>, by_first: bool, key: usize, equal: bool, take_first: bool) -> Seq<usize>
    decreases t.len(),
{
    if t.len() == 0 {
        Seq::empty()
    } else {
        let before = matching(t.drop_last(), by_first, key, equal, take_first);
        let p = t.last();
        let id = if by_first { p.0 } else { p.1 };
        if (id == key) == equal {
            before.push(if take_first { p.0 } else { p.1 })
        } else {
            before
        }
    }
}

/// How the four vertices `t` of the final simplex of a collision search
/// touch, given the multiplicity tables of the first shape's ids (`me`)
/// and of the second shape's (`oe`) in the order they are walked:
/// - an id of the first shape met three times: that vertex against the
///   face of the second shape's first three ids;
/// - else an id of the second shape met three times: the face of the first
///   shape's first three ids against that vertex;
/// - else an id of each shape met twice: the edge of the first shape's ids
///   paired with the second's twice-met id, against the edge of the
///   second shape's ids paired with the first's twice-met id;
/// - else the face of the first shape's twice-met id and its other two
///   ids against the second shape's first three vertices, or the mirror
///   case, or the faces of the first three vertices on both shapes.
/// Where a count is met by several ids, the last one walked is taken.
pub open spec fn spec_classify(
    t: Seq<(usize, usize)>,
    me: Seq<(usize, u32)>,
    oe: Seq<(usize, u32)>,
) -> Result<CollisionType, CollisionError> {
    let my_three = last_with_count(me, 3, me.len());
    let o_three = last_with_count(oe, 3, oe.len());
    let my_two = last_with_count(me, 2, me.len());
    let o_two = last_with_count(oe, 2, oe.len());
    if my_three is Some {
        if oe.len() < 3 {
            Err(CollisionError::MissingFaceVertices)
        } else {
            Ok(CollisionType::VertexFace((my_three->0,), (oe[0].0, oe[1].0, oe[2].0)))
        }
    } else if o_three is Some {
        if me.len() < 3 {
            Err(CollisionError::MissingFaceVertices)
        } else {
            Ok(CollisionType::FaceVertex((me[0].0, me[1].0, me[2].0), (o_three->0,)))
        }
    } else if my_two is Some {
        let my = my_two->0;
        if o_two is Some {
            let o = o_two->0;
            let mv = matching(t, false, o, true, true);
            let ov = matching(t, true, my, true, false);
            Ok(CollisionType::EdgeEdge((mv[0], mv[1]), (ov[0], ov[1])))
        } else {
            let rest = matching(t, true, my, false, true);
            Ok(CollisionType::FaceFace((my, rest[0], rest[1]), (t[0].1, t[1].1, t[2].1)))
        }
    } else if o_two is Some {
        let o = o_two->0;
        let rest = matching(t, false, o, false, false);
        Ok(CollisionType::FaceFace((t[0].0, t[1].0, t[2].0), (o, rest[0], rest[1])))
    } else {
        Ok(CollisionType::FaceFace((t[0].0, t[1].0, t[2].0), (t[0].1, t[1].1, t[2].1)))
    }
}

fn find_last_with_count(entries: &Vec<(usize, u32)>, c: u32) -> (r: Option<usize>)
    ensures
        r == last_with_count(entries@, c, entries@.len()),
{
    let mut found: Option<usize> = None;
    let mut i: usize = 0;
    while i < entries.len()
        invariant
            i <= entries@.len(),
            found == last_with_count(entries@, c, i as nat),
        decreases entries@.len() - i,
    {
        if entries[i].1 == c {
            found = Some(entries[i].0);
        }
        i = i + 1;
    }
    found
}

fn collect_matching(t: &[(usize, usize); 4], by_first: bool, key: usize, equal: bool, take_first: bool) -> (r: Vec<usize>)
    ensures
        r@ == matching(t@, by_first, key, equal, take_first),
{
    let mut out: Vec<usize> = Vec::new();
    let mut i: usize = 0;
    while i < 4
        invariant
            i <= 4,
            out@ == matching(t@.take(i as int), by_first, key, equal, take_first),
        decreases 4 - i,
    {
        let p = t[i];
        proof {
            assert(t@.take(i + 1).drop_last() =~= t@.take(i as int));
        }
        let id = if by_first { p.0 } else { p.1 };
        if (id == key) == equal {
            out.push(if take_first { p.0 } else { p.1 });
        }
        i = i + 1;
    }
    assert(t@.take(4) =~= t@);
    out
}

/// The ids on one shape (the first's when `by_first`) of the vertices.
pub open spec fn ids_of(t: Seq<(usize, usize)>, by_first: bool) -> Seq<usize> {
    if by_first {
        firsts(t)
    } else {
        seconds(t)
    }
}

proof fn lemma_matching_len(t: Seq<(usize, usize)>, by_first: bool, key: usize, take_first: bool)
    ensures
        matching(t, by_first, key, true, take_first).len() == occurrences(ids_of(t, by_first), key),
        matching(t, by_first, key, false, take_first).len() + occurrences(ids_of(t, by_first), key) == t.len(),
    decreases t.len(),
{
    if t.len() > 0 {
        lemma_matching_len(t.drop_last(), by_first, key, take_first);
        assert(ids_of(t, by_first).drop_last() =~= ids_of(t.drop_last(), by_first));
        assert(ids_of(t, by_first).last() == if by_first { t.last().0 } else { t.last().1 });
    }
}

proof fn lemma_last_with_count(entries: Seq<(usize, u32)>, ids: Seq<usize>, c: u32, n: nat)
    requires
        lists_counts(entries, ids),
        n <= entries.len(),
    ensures
        last_with_count(entries, c, n) matches Some(k) ==> ids.contains(k) && occurrences(ids, k) == c,
        last_with_count(entries, c, n) is None ==> forall|i: int| 0 <= i < n ==> (#[trigger] entries[i]).1 != c,
    decreases n,
{
    if n > 0 {
        lemma_last_with_count(entries, ids, c, (n - 1) as nat);
        assert(ids.contains(entries[n - 1].0));
    }
}

/// Classifies the contact of the simplex `t` from the multiplicity tables
/// of its vertices' ids on the two shapes, walked in the given orders.
pub fn classify(
    t: &[(usize, usize); 4],
    me: &Vec<(usize, u32)>,
    oe: &Vec<(usize, u32)>,
) -> (r: Result<CollisionType, CollisionError>)
    requires
        lists_counts(me@, firsts(t@)),
        lists_counts(oe@, seconds(t@)),
    ensures
        r == spec_classify(t@, me@, oe@),
        r matches Ok(contact) ==> contact_from_simplex(t@, contact),
{
    proof {
        lemma_classify_features(t@, me@, oe@);
    }
    let my_three = find_last_with_count(me, 3);
    let o_three = find_last_with_count(oe, 3);
    let my_two = find_last_with_count(me, 2);
    let o_two = find_last_with_count(oe, 2);
    proof {
        lemma_last_with_count(me@, firsts(t@), 2, me@.len());
        lemma_last_with_count(oe@, seconds(t@), 2, oe@.len());
    }
    if let Some(v) = my_three {
        if oe.len() < 3 {
            return Err(CollisionError::MissingFaceVertices);
        }
        return Ok(CollisionType::VertexFace((v,), (oe[0].0, oe[1].0, oe[2].0)));
    }
    if let Some(v) = o_three {
        if me.len() < 3 {
            return Err(CollisionError::MissingFaceVertices);
        }
        return Ok(CollisionType::FaceVertex((me[0].0, me[1].0, me[2].0), (v,)));
    }
    if let Some(my) = my_two {
        proof {
            lemma_matching_len(t@, true, my, false);
            lemma_matching_len(t@, true, my, true);
        }
        if let Some(o) = o_two {
            proof {
                lemma_matching_len(t@, false, o, true);
            }
            let mv = collect_matching(t, false, o, true, true);
            let ov = collect_matching(t, true, my, true, false);
            return Ok(CollisionType::EdgeEdge((mv[0], mv[1]), (ov[0], ov[1])));
        }
        let rest = collect_matching(t, true, my, false, true);
        return Ok(CollisionType::FaceFace((my, rest[0], rest[1]), (t[0].1, t[1].1, t[2].1)));
    }
    if let Some(o) = o_two {
        proof {
            lemma_matching_len(t@, false, o, false);
        }
        let rest = collect_matching(t, false, o, false, false);
        return Ok(CollisionType::FaceFace((t[0].0, t[1].0, t[2].0), (o, rest[0], rest[1])));
    }
    Ok(CollisionType::FaceFace((t[0].0, t[1].0, t[2].0), (t[0].1, t[1].1, t[2].1)))
}

proof fn lemma_entries_list_counts(entries: Seq<(usize, u32)>, m: Map<usize, u32>, ids: Seq<usize>)
    requires
        ids.len() <= 4,
        m == multiplicities(ids),
        forall|i: int| 0 <= i < entries.len() ==> m.contains_key(#[trigger] entries[i].0) && m[entries[i].0] == entries[i].1,
        forall|i: int, j: int| 0 <= i < j < entries.len() ==> (#[trigger] entries[i]).0 != (#[trigger] entries[j]).0,
        forall|k: usize| m.contains_key(k) ==> exists|i: int| 0 <= i < entries.len() && (#[trigger] entries[i]).0 == k,
    ensures
        lists_counts(entries, ids),
{
    assert forall|i: int| 0 <= i < entries.len() implies ids.contains(#[trigger] entries[i].0) && entries[i].1
        == occurrences(ids, entries[i].0) by {
        lemma_occurrences_bound(ids, entries[i].0);
    }
    assert forall|k: usize| ids.contains(k) implies exists|i: int| 0 <= i < entries.len() && (#[trigger] entries[i]).0
        == k by {
        assert(m.contains_key(k));
    }
}

/// Classifies the contact of the final simplex of a collision search from
/// the identifiers of its four vertices on the two shapes (`(first,
/// second)` per vertex): the ids of each shape are counted in an
/// `FxHashMap`, whose walking order the result may depend on.
pub fn get_collision_type(vertices: [(usize, usize); 4]) -> (r: Result<CollisionType, CollisionError>)
    ensures
        exists|me: Seq<(usize, u32)>, oe: Seq<(usize, u32)>|
            lists_counts(me, firsts(vertices@)) && lists_counts(oe, seconds(vertices@)) && r == spec_classify(
                vertices@,
                me,
                oe,
            ),
        r is Err <==> contact_fails(vertices@),
        r matches Ok(c) ==> contact_from_simplex(vertices@, c),
        r matches Ok(c) ==> {
            let (f, s) = (firsts(vertices@), seconds(vertices@));
            &&& has_count(f, 3) ==> c is VertexFace
            &&& !has_count(f, 3) && has_count(s, 3) ==> c is FaceVertex
            &&& !has_count(f, 3) && !has_count(s, 3) && has_count(f, 2) && has_count(s, 2) ==> c is EdgeEdge
            &&& !has_count(f, 3) && !has_count(s, 3) && !(has_count(f, 2) && has_count(s, 2)) ==> c is FaceFace
        },
{
    let mine = [vertices[0].0, vertices[1].0, vertices[2].0, vertices[3].0];
    let others = [vertices[0].1, vertices[1].1, vertices[2].1, vertices[3].1];
    assert(mine@ =~= firsts(vertices@));
    assert(others@ =~= seconds(vertices@));
    let my_counts = count_ids(mine);
    let o_counts = count_ids(others);
    let me = fx_entries(&my_counts);
    let oe = fx_entries(&o_counts);
    proof {
        lemma_entries_list_counts(me@, my_counts@, mine@);
        lemma_entries_list_counts(oe@, o_counts@, others@);
        lemma_classify_shape(vertices@, me@, oe@);
        lemma_classify_features(vertices@, me@, oe@);
    }
    classify(&vertices, &me, &oe)
}

/// Whether the contact `contact` is made of features of the simplex `t`:
/// a vertex against a face is a first-shape id met three times against
/// three pairwise distinct second-shape ids of the simplex (and the
/// mirror case); two edges are each two first-shape ids met with one
/// twice-met second-shape id, against two second-shape ids met with one
/// twice-met first-shape id; two faces are three ids of each shape taken
/// from the simplex.
pub open spec fn contact_from_simplex(t: Seq<(usize, usize)>, contact: CollisionType) -> bool {
    let f = firsts(t);
    let s = seconds(t);
    match contact {
        CollisionType::VertexFace((v,), (a, b, c)) => {
            &&& occurrences(f, v) == 3
            &&& s.contains(a) && s.contains(b) && s.contains(c)
            &&& a != b && b != c && a != c
        },
        CollisionType::FaceVertex((a, b, c), (v,)) => {
            &&& occurrences(s, v) == 3
            &&& f.contains(a) && f.contains(b) && f.contains(c)
            &&& a != b && b != c && a != c
        },
        CollisionType::EdgeEdge((a, b), (c, d)) => {
            &&& exists|o: usize| occurrences(s, o) == 2 && t.contains((a, o)) && t.contains((b, o))
            &&& exists|m: usize| occurrences(f, m) == 2 && t.contains((m, c)) && t.contains((m, d))
        },
        CollisionType::FaceFace((a, b, c), (d, e, g)) => {
            &&& f.contains(a) && f.contains(b) && f.contains(c)
            &&& s.contains(d) && s.contains(e) && s.contains(g)
        },
    }
}

proof fn lemma_matching_from(t: Seq<(usize, usize)>, by_first: bool, key: usize, equal: bool, take_first: bool)
    ensures
        forall|i: int|
            0 <= i < matching(t, by_first, key, equal, take_first).len() ==> exists|j: int|
                0 <= j < t.len() && ((if by_first { t[j].0 } else { t[j].1 }) == key) == equal
                    && #[trigger] matching(t, by_first, key, equal, take_first)[i] == (if take_first {
                    t[j].0
                } else {
                    t[j].1
                }),
    decreases t.len(),
{
    if t.len() > 0 {
        let rest = t.drop_last();
        lemma_matching_from(rest, by_first, key, equal, take_first);
        let m = matching(t, by_first, key, equal, take_first);
        let mr = matching(rest, by_first, key, equal, take_first);
        assert forall|i: int| 0 <= i < m.len() implies exists|j: int|
            0 <= j < t.len() && ((if by_first { t[j].0 } else { t[j].1 }) == key) == equal
                && #[trigger] m[i] == (if take_first { t[j].0 } else { t[j].1 }) by {
            if i < mr.len() {
                assert(m[i] == mr[i]);
                let j = choose|j: int|
                    0 <= j < rest.len() && ((if by_first { rest[j].0 } else { rest[j].1 }) == key) == equal
                        && #[trigger] mr[i] == (if take_first { rest[j].0 } else { rest[j].1 });
                assert(t[j] == rest[j]);
            } else {
                assert(t[t.len() - 1] == t.last());
            }
        }
    }
}

/// Whatever order the multiplicity tables are walked in, a classified
/// contact is made of features of the simplex (`contact_from_simplex`):
/// in particular the face a vertex meets has three distinct vertices of
/// the other shape, and each edge's two ids lie on simplex vertices
/// sharing the other shape's twice-met id.
pub proof fn lemma_classify_features(t: Seq<(usize, usize)>, me: Seq<(usize, u32)>, oe: Seq<(usize, u32)>)
    requires
        t.len() == 4,
        lists_counts(me, firsts(t)),
        lists_counts(oe, seconds(t)),
    ensures
        spec_classify(t, me, oe) matches Ok(contact) ==> contact_from_simplex(t, contact),
{
    let f = firsts(t);
    let s = seconds(t);
    lemma_last_with_count(me, f, 3, me.len());
    lemma_last_with_count(oe, s, 3, oe.len());
    lemma_last_with_count(me, f, 2, me.len());
    lemma_last_with_count(oe, s, 2, oe.len());
    assert(f[0] == t[0].0 && f[1] == t[1].0 && f[2] == t[2].0);
    assert(s[0] == t[0].1 && s[1] == t[1].1 && s[2] == t[2].1);
    let my_three = last_with_count(me, 3, me.len());
    let o_three = last_with_count(oe, 3, oe.len());
    let my_two = last_with_count(me, 2, me.len());
    let o_two = last_with_count(oe, 2, oe.len());
    if my_three is Some {
        if oe.len() >= 3 {
            assert(oe[0].0 != oe[1].0 && oe[1].0 != oe[2].0 && oe[0].0 != oe[2].0);
        }
    } else if o_three is Some {
        if me.len() >= 3 {
            assert(me[0].0 != me[1].0 && me[1].0 != me[2].0 && me[0].0 != me[2].0);
        }
    } else if my_two is Some {
        let my = my_two->0;
        lemma_matching_len(t, true, my, false);
        lemma_matching_len(t, true, my, true);
        if o_two is Some {
            let o = o_two->0;
            lemma_matching_len(t, false, o, true);
            let mv = matching(t, false, o, true, true);
            let ov = matching(t, true, my, true, false);
            lemma_matching_from(t, false, o, true, true);
            lemma_matching_from(t, true, my, true, false);
            assert(mv[0] == mv[0] && mv[1] == mv[1] && ov[0] == ov[0] && ov[1] == ov[1]);
            let j0 = choose|j: int| 0 <= j < t.len() && (t[j].1 == o) == true && #[trigger] mv[0] == t[j].0;
            let j1 = choose|j: int| 0 <= j < t.len() && (t[j].1 == o) == true && #[trigger] mv[1] == t[j].0;
            let k0 = choose|j: int| 0 <= j < t.len() && (t[j].0 == my) == true && #[trigger] ov[0] == t[j].1;
            let k1 = choose|j: int| 0 <= j < t.len() && (t[j].0 == my) == true && #[trigger] ov[1] == t[j].1;
            assert(t[j0] == (mv[0], o) && t.contains((mv[0], o)));
            assert(t[j1] == (mv[1], o) && t.contains((mv[1], o)));
            assert(t[k0] == (my, ov[0]) && t.contains((my, ov[0])));
            assert(t[k1] == (my, ov[1]) && t.contains((my, ov[1])));
        } else {
            let rest = matching(t, true, my, false, true);
            lemma_matching_from(t, true, my, false, true);
            assert(rest[0] == rest[0] && rest[1] == rest[1]);
            let j0 = choose|j: int| 0 <= j < t.len() && (t[j].0 == my) == false && #[trigger] rest[0] == t[j].0;
            let j1 = choose|j: int| 0 <= j < t.len() && (t[j].0 == my) == false && #[trigger] rest[1] == t[j].0;
            assert(f[j0] == rest[0] && f[j1] == rest[1]);
        }
    } else if o_two is Some {
        let o = o_two->0;
        lemma_matching_len(t, false, o, false);
        let rest = matching(t, false, o, false, false);
        lemma_matching_from(t, false, o, false, false);
        assert(rest[0] == rest[0] && rest[1] == rest[1]);
        let j0 = choose|j: int| 0 <= j < t.len() && (t[j].1 == o) == false && #[trigger] rest[0] == t[j].1;
        let j1 = choose|j: int| 0 <= j < t.len() && (t[j].1 == o) == false && #[trigger] rest[1] == t[j].1;
        assert(s[j0] == rest[0] && s[j1] == rest[1]);
    }
}

/// Whether some id occurs exactly `c` times in `ids`.
pub open spec fn has_count(ids: Seq<usize>, c: nat) -> bool {
    exists|k: int| 0 <= k < ids.len() && occurrences(ids, #[trigger] ids[k]) == c
}

/// How many distinct ids `ids` holds.
pub open spec fn distinct_ids(ids: Seq<usize>) -> nat {
    ids.to_set().len()
}

/// Whether classifying the simplex `t` fails: a vertex meets a face whose
/// shape offers fewer than three distinct vertices.
pub open spec fn contact_fails(t: Seq<(usize, usize)>) -> bool {
    ||| has_count(firsts(t), 3) && distinct_ids(seconds(t)) < 3
    ||| !has_count(firsts(t), 3) && has_count(seconds(t), 3) && distinct_ids(firsts(t)) < 3
}

proof fn lemma_count_found(entries: Seq<(usize, u32)>, ids: Seq<usize>, c: u32)
    requires
        lists_counts(entries, ids),
    ensures
        last_with_count(entries, c, entries.len()) is Some <==> has_count(ids, c as nat),
{
    lemma_last_with_count(entries, ids, c, entries.len());
    if let Some(k) = last_with_count(entries, c, entries.len()) {
        let j = choose|j: int| 0 <= j < ids.len() && ids[j] == k;
        assert(occurrences(ids, ids[j]) == c);
    }
    if has_count(ids, c as nat) {
        let k = choose|k: int| 0 <= k < ids.len() && occurrences(ids, #[trigger] ids[k]) == c;
        assert(ids.contains(ids[k]));
        let i = choose|i: int| 0 <= i < entries.len() && (#[trigger] entries[i]).0 == ids[k];
        assert(entries[i].1 == c);
    }
}

proof fn lemma_entries_len(entries: Seq<(usize, u32)>, ids: Seq<usize>)
    requires
        lists_counts(entries, ids),
    ensures
        entries.len() == distinct_ids(ids),
{
    let keys = entries.map_values(|p: (usize, u32)| p.0);
    assert forall|i: int, j: int| 0 <= i < keys.len() && 0 <= j < keys.len() && i != j implies keys[i] != keys[j] by {
        if i < j {
            assert(entries[i].0 != entries[j].0);
        } else {
            assert(entries[j].0 != entries[i].0);
        }
    }
    assert(keys.no_duplicates());
    assert forall|k: usize| keys.to_set().contains(k) <==> ids.to_set().contains(k) by {
        if keys.contains(k) {
            let i = choose|i: int| 0 <= i < keys.len() && keys[i] == k;
            assert(ids.contains(entries[i].0));
        }
        if ids.contains(k) {
            let i = choose|i: int| 0 <= i < entries.len() && (#[trigger] entries[i]).0 == k;
            assert(keys[i] == k);
        }
    }
    assert(keys.to_set() =~= ids.to_set());
    keys.unique_seq_to_set();
}

/// Whatever order the multiplicity tables are walked in, classification
/// fails exactly on the simplices where a vertex meets a face with fewer
/// than three distinct vertices, and otherwise the kind of contact is
/// fixed by the ids' multiplicities alone: a vertex of the first shape met
/// three times touches a face, else one of the second shape, else two
/// edges when both shapes have an id met twice, else two faces.
pub proof fn lemma_classify_shape(t: Seq<(usize, usize)>, me: Seq<(usize, u32)>, oe: Seq<(usize, u32)>)
    requires
        t.len() == 4,
        lists_counts(me, firsts(t)),
        lists_counts(oe, seconds(t)),
    ensures
        spec_classify(t, me, oe) is Err <==> contact_fails(t),
        spec_classify(t, me, oe) is Ok ==> {
            let c = spec_classify(t, me, oe)->Ok_0;
            &&& has_count(firsts(t), 3) ==> c is VertexFace
            &&& !has_count(firsts(t), 3) && has_count(seconds(t), 3) ==> c is FaceVertex
            &&& !has_count(firsts(t), 3) && !has_count(seconds(t), 3) && has_count(firsts(t), 2) && has_count(
                seconds(t),
                2,
            ) ==> c is EdgeEdge
            &&& !has_count(firsts(t), 3) && !has_count(seconds(t), 3) && !(has_count(firsts(t), 2) && has_count(
                seconds(t),
                2,
            )) ==> c is FaceFace
        },
{
    lemma_count_found(me, firsts(t), 3);
    lemma_count_found(oe, seconds(t), 3);
    lemma_count_found(me, firsts(t), 2);
    lemma_count_found(oe, seconds(t), 2);
    lemma_entries_len(me, firsts(t));
    lemma_entries_len(oe, seconds(t));
}

} // verus!
