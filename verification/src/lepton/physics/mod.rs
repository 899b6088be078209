//! Object identifiers shared by the physics and rendering halves, the
//! pairs of bodies a physics step considers, and the bookkeeping of the
//! collision search.

pub mod collider;
pub mod collisions;

use vstd::prelude::*;

verus! {

/// An object's identifier.
pub type Object = u16;

/// Hands out object identifiers, each one once.
pub struct ObjectManager {
    max_id: Object,
}

/// How a rigid body moves from frame to frame.
pub enum Updater {
    Fixed,
    Free,
    Line,
    Circle,
    Orbit,
}

impl ObjectManager {
    /// The identifier the next call of `get_object` returns; every
    /// identifier below it has been handed out.
    pub closed spec fn next_id(self) -> Object {
        self.max_id
    }

    /// A manager that has handed out no identifier.
    pub fn new() -> (r: ObjectManager)
        ensures
            r.next_id() == 0,
    {
        ObjectManager { max_id: 0 }
    }

    /// Hands out a fresh identifier: the lowest one not yet handed out.
    /// The last value of `Object` is never handed out.
    pub fn get_object(&mut self) -> (id: Object)
        requires
            old(self).next_id() < Object::MAX,
        ensures
            id == old(self).next_id(),
            final(self).next_id() == id + 1,
    {
        let id = self.max_id;
        self.max_id = self.max_id + 1;
        id
    }
}

/// Identifiers handed out by successive calls of `get_object` on one
/// manager count up by one from the manager's next identifier, so they are
/// strictly increasing and no identifier is handed out twice; from a fresh
/// manager (`ObjectManager::new`) the `i`-th call hands out `i`.
/// `states[i]` is the manager before the `i`-th call and `ids[i]` what the
/// call returned, as `get_object`'s contract relates them.
pub proof fn lemma_identifiers_distinct(states: Seq<ObjectManager>, ids: Seq<Object>)
    requires
        states.len() == ids.len() + 1,
        forall|i: int|
            0 <= i < ids.len() ==> ids[i] == states[i].next_id() && states[i + 1].next_id() == ids[i] + 1,
    ensures
        forall|i: int| 0 <= i < ids.len() ==> ids[i] == states[0].next_id() + i,
        states[0].next_id() == 0 ==> forall|i: int| 0 <= i < ids.len() ==> ids[i] == i,
        forall|i: int, j: int| 0 <= i < j < ids.len() ==> ids[i] < ids[j],
{
    assert forall|i: int| 0 <= i < ids.len() implies ids[i] == states[0].next_id() + i by {
        if i > 0 {
            lemma_identifiers_grow(states, ids, 0, i);
        }
    }
    assert forall|i: int, j: int| 0 <= i < j < ids.len() implies ids[i] < ids[j] by {
        lemma_identifiers_grow(states, ids, i, j);
    }
}

proof fn lemma_identifiers_grow(states: Seq<ObjectManager>, ids: Seq<Object>, i: int, j: int)
    requires
        states.len() == ids.len() + 1,
        forall|k: int|
            0 <= k < ids.len() ==> ids[k] == states[k].next_id() && states[k + 1].next_id() == ids[k] + 1,
        0 <= i < j < ids.len(),
    ensures
        ids[i] + (j - i) == ids[j],
    decreases j - i,
{
    if j > i + 1 {
        lemma_identifiers_grow(states, ids, i, j - 1);
    }
}

/// The pairs `(i, j)`, for `j` below `n`, where the object at `i` has
/// the smaller identifier, in the order of `j`.
pub open spec fn row_pairs(objects: Seq<Object>, i: int, n: nat) -> Seq<(usize, usize)>
    decreases n,
{
    if n == 0 {
        Seq::empty()
    } else {
        let before = row_pairs(objects, i, (n - 1) as nat);
        if objects[i] < objects[n - 1] {
            before.push((i as usize, (n - 1) as usize))
        } else {
            before
        }
    }
}

/// The pairs of positions whose objects interact, for the first `m`
/// objects as the first of the pair: each pair with the smaller identifier
/// first, row by row.
pub open spec fn interacting_pairs(objects: Seq<Object>, m: nat) -> Seq<(usize, usize)>
    decreases m,
{
    if m == 0 {
        Seq::empty()
    } else {
        interacting_pairs(objects, (m - 1) as nat) + row_pairs(objects, m - 1, objects.len())
    }
}

/// The pairs of bodies that the physics step lets interact and collide,
/// as positions in the list of the bodies' objects: every pair whose
/// first object has the smaller identifier, in the order the list is
/// walked.
pub fn interaction_pairs(objects: &[Object]) -> (r: Vec<(usize, usize)>)
    ensures
        r@ == interacting_pairs(objects@, objects@.len()),
{
    let mut pairs: Vec<(usize, usize)> = Vec::new();
    let mut i: usize = 0;
    while i < objects.len()
        invariant
            i <= objects@.len(),
            pairs@ == interacting_pairs(objects@, i as nat),
        decreases objects@.len() - i,
    {
        let ghost start = pairs@;
        let mut j: usize = 0;
        while j < objects.len()
            invariant
                i < objects@.len(),
                j <= objects@.len(),
                pairs@ == start + row_pairs(objects@, i as int, j as nat),
            decreases objects@.len() - j,
        {
            if objects[i] < objects[j] {
                pairs.push((i, j));
            }
            j = j + 1;
            proof {
                assert(start + row_pairs(objects@, i as int, j as nat) =~= pairs@);
            }
        }
        i = i + 1;
    }
    pairs
}

/// Every pair of objects with different identifiers is let interact
/// exactly once, with the smaller identifier first; objects sharing an
/// identifier never interact.
pub proof fn lemma_pairs_once(objects: Seq<Object>, a: int, b: int)
    requires
        0 <= a < objects.len(),
        0 <= b < objects.len(),
        objects.len() <= usize::MAX,
    ensures
        interacting_pairs(objects, objects.len()).contains((a as usize, b as usize)) <==> objects[a] < objects[b],
        interacting_pairs(objects, objects.len()).no_duplicates(),
{
    lemma_interacting_pairs(objects, objects.len(), a, b);
    lemma_pairs_sorted(objects, objects.len());
}

proof fn lemma_row_sorted(objects: Seq<Object>, i: int, n: nat)
    requires
        0 <= i < objects.len(),
        n <= objects.len() <= usize::MAX,
    ensures
        forall|k: int|
            0 <= k < row_pairs(objects, i, n).len() ==> (#[trigger] row_pairs(objects, i, n)[k]).0 == i
                && row_pairs(objects, i, n)[k].1 < n,
        forall|k1: int, k2: int|
            0 <= k1 < k2 < row_pairs(objects, i, n).len() ==> (#[trigger] row_pairs(objects, i, n)[k1]).1
                < (#[trigger] row_pairs(objects, i, n)[k2]).1,
    decreases n,
{
    if n > 0 {
        lemma_row_sorted(objects, i, (n - 1) as nat);
        let before = row_pairs(objects, i, (n - 1) as nat);
        if objects[i] < objects[n - 1] {
            let after = before.push((i as usize, (n - 1) as usize));
            assert(after == row_pairs(objects, i, n));
            assert forall|k: int| 0 <= k < after.len() implies (#[trigger] after[k]).0 == i && after[k].1 < n by {
                if k < before.len() {
                    assert(after[k] == before[k]);
                }
            }
            assert forall|k1: int, k2: int| 0 <= k1 < k2 < after.len() implies (#[trigger] after[k1]).1
                < (#[trigger] after[k2]).1 by {
                assert(after[k1] == before[k1]);
                if k2 < before.len() {
                    assert(after[k2] == before[k2]);
                }
            }
        }
    }
}

proof fn lemma_pairs_sorted(objects: Seq<Object>, m: nat)
    requires
        m <= objects.len() <= usize::MAX,
    ensures
        forall|k: int|
            0 <= k < interacting_pairs(objects, m).len() ==> (#[trigger] interacting_pairs(objects, m)[k]).0 < m,
        forall|k1: int, k2: int|
            0 <= k1 < k2 < interacting_pairs(objects, m).len() ==> {
                let p1 = #[trigger] interacting_pairs(objects, m)[k1];
                let p2 = #[trigger] interacting_pairs(objects, m)[k2];
                p1.0 < p2.0 || (p1.0 == p2.0 && p1.1 < p2.1)
            },
        interacting_pairs(objects, m).no_duplicates(),
    decreases m,
{
    if m > 0 {
        let before = interacting_pairs(objects, (m - 1) as nat);
        let row = row_pairs(objects, m - 1, objects.len());
        let all = before + row;
        lemma_pairs_sorted(objects, (m - 1) as nat);
        lemma_row_sorted(objects, m - 1, objects.len());
        assert forall|k: int| 0 <= k < all.len() implies (#[trigger] all[k]).0 < m by {
            if k < before.len() {
                assert(all[k] == before[k]);
            } else {
                assert(all[k] == row[k - before.len()]);
            }
        }
        assert forall|k1: int, k2: int| 0 <= k1 < k2 < all.len() implies {
            let p1 = #[trigger] all[k1];
            let p2 = #[trigger] all[k2];
            p1.0 < p2.0 || (p1.0 == p2.0 && p1.1 < p2.1)
        } by {
            if k2 < before.len() {
                assert(all[k1] == before[k1] && all[k2] == before[k2]);
            } else if k1 < before.len() {
                assert(all[k1] == before[k1] && all[k2] == row[k2 - before.len()]);
            } else {
                assert(all[k1] == row[k1 - before.len()] && all[k2] == row[k2 - before.len()]);
            }
        }
        assert forall|k1: int, k2: int| 0 <= k1 < all.len() && 0 <= k2 < all.len() && k1 != k2 implies all[k1]
            != all[k2] by {
            if k1 < k2 {
                assert(all[k1].0 < all[k2].0 || (all[k1].0 == all[k2].0 && all[k1].1 < all[k2].1));
            } else {
                assert(all[k2].0 < all[k1].0 || (all[k2].0 == all[k1].0 && all[k2].1 < all[k1].1));
            }
        }
    }
}

proof fn lemma_row_pairs(objects: Seq<Object>, i: int, n: nat, p: (usize, usize))
    requires
        0 <= i < objects.len(),
        n <= objects.len() <= usize::MAX,
    ensures
        row_pairs(objects, i, n).contains(p) <==> (p.0 == i && p.1 < n && objects[i] < objects[p.1 as int]),
    decreases n,
{
    if n > 0 {
        lemma_row_pairs(objects, i, (n - 1) as nat, p);
        let before = row_pairs(objects, i, (n - 1) as nat);
        if objects[i] < objects[n - 1] {
            let after = before.push((i as usize, (n - 1) as usize));
            if after.contains(p) {
                let k = choose|k: int| 0 <= k < after.len() && after[k] == p;
                if k < before.len() {
                    assert(before[k] == p);
                }
            }
            if before.contains(p) {
                let k = choose|k: int| 0 <= k < before.len() && before[k] == p;
                assert(after[k] == p);
            }
            if p == (i as usize, (n - 1) as usize) {
                assert(after[before.len() as int] == p);
            }
        }
    }
}

proof fn lemma_interacting_pairs(objects: Seq<Object>, m: nat, a: int, b: int)
    requires
        m <= objects.len() <= usize::MAX,
        0 <= a < objects.len(),
        0 <= b < objects.len(),
    ensures
        interacting_pairs(objects, m).contains((a as usize, b as usize)) <==> (a < m && objects[a] < objects[b]),
    decreases m,
{
    if m > 0 {
        let p = (a as usize, b as usize);
        lemma_interacting_pairs(objects, (m - 1) as nat, a, b);
        lemma_row_pairs(objects, m - 1, objects.len(), p);
        let before = interacting_pairs(objects, (m - 1) as nat);
        let row = row_pairs(objects, m - 1, objects.len());
        let all = before + row;
        if all.contains(p) {
            let k = choose|k: int| 0 <= k < all.len() && all[k] == p;
            if k < before.len() {
                assert(before[k] == p);
            } else {
                assert(row[k - before.len()] == p);
            }
        }
        if before.contains(p) {
            let k = choose|k: int| 0 <= k < before.len() && before[k] == p;
            assert(all[k] == p);
        }
        if row.contains(p) {
            let k = choose|k: int| 0 <= k < row.len() && row[k] == p;
            assert(all[before.len() + k] == p);
        }
    }
}

} // verus!
