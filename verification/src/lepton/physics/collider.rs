use vstd::prelude::*;

verus! {

/// How many times the collision search may refine its simplex before it
/// gives up.
pub const MAX_ITERATIONS: u32 = 20;

/// The simplex the collision search grows towards the origin: one to four
/// support points.
#[derive(PartialEq, Eq, Structural, Copy, Clone, Debug)]
pub enum Simplex<V> {
    Point(V),
    Line(V, V),
    Triangle(V, V, V),
    Tetrahedron(V, V, V, V),
}

impl<V: Copy> Simplex<V> {
    /// The points of the simplex, in the order they were added.
    pub open spec fn points(self) -> Seq<V> {
        match self {
            Simplex::Point(a) => seq![a],
            Simplex::Line(a, b) => seq![a, b],
            Simplex::Triangle(a, b, c) => seq![a, b, c],
            Simplex::Tetrahedron(a, b, c, d) => seq![a, b, c, d],
        }
    }

    /// Adds a point; a tetrahedron has no room for another.
    pub fn push(&mut self, v: V)
        requires
            !(*old(self) is Tetrahedron),
        ensures
            final(self).points() == old(self).points().push(v),
    {
        let next = match *self {
            Simplex::Point(i) => Simplex::Line(i, v),
            Simplex::Line(i, j) => Simplex::Triangle(i, j, v),
            Simplex::Triangle(i, j, k) => Simplex::Tetrahedron(i, j, k, v),
            Simplex::Tetrahedron(i, j, k, l) => Simplex::Tetrahedron(i, j, k, l),
        };
        *self = next;
        proof {
            assert(self.points() =~= old(self).points().push(v));
        }
    }
}

/// A simplex's shape, without its points.
#[derive(PartialEq, Eq, Structural, Copy, Clone, Debug)]
pub enum SimplexKind {
    Point,
    Line,
    Triangle,
    Tetrahedron,
}

/// How contact between two reduced simplices is resolved: which routine
/// runs, and whether it takes the second simplex first.
#[derive(PartialEq, Eq, Structural, Copy, Clone, Debug)]
pub enum ContactCase {
    PointTet { swapped: bool },
    EdgeEdge,
    EdgeFace { swapped: bool },
    EdgeTet { swapped: bool },
    FaceFace,
    FaceTet { swapped: bool },
    TetTet,
}

impl<V> Simplex<V> {
    /// The shape of the simplex.
    pub open spec fn spec_kind(self) -> SimplexKind {
        match self {
            Simplex::Point(..) => SimplexKind::Point,
            Simplex::Line(..) => SimplexKind::Line,
            Simplex::Triangle(..) => SimplexKind::Triangle,
            Simplex::Tetrahedron(..) => SimplexKind::Tetrahedron,
        }
    }

    /// The shape of the simplex.
    pub fn kind(&self) -> (r: SimplexKind)
        ensures
            r == self.spec_kind(),
    {
        match self {
            Simplex::Point(..) => SimplexKind::Point,
            Simplex::Line(..) => SimplexKind::Line,
            Simplex::Triangle(..) => SimplexKind::Triangle,
            Simplex::Tetrahedron(..) => SimplexKind::Tetrahedron,
        }
    }
}

/// The distinct points of `s`, each where it first occurs.
pub open spec fn distinct_points(s: Seq<u64>) -> Seq<u64>
    decreases s.len(),
{
    if s.len() == 0 {
        Seq::empty()
    } else {
        let d = distinct_points(s.drop_last());
        if d.contains(s.last()) {
            d
        } else {
            d.push(s.last())
        }
    }
}

fn holds_point(s: &Simplex<u64>, v: u64) -> (r: bool)
    ensures
        r == s.points().contains(v),
{
    let r = match *s {
        Simplex::Point(a) => a == v,
        Simplex::Line(a, b) => a == v || b == v,
        Simplex::Triangle(a, b, c) => a == v || b == v || c == v,
        Simplex::Tetrahedron(a, b, c, d) => a == v || b == v || c == v || d == v,
    };
    proof {
        let p = s.points();
        match *s {
            Simplex::Point(a) => {
                assert(p[0] == a);
            },
            Simplex::Line(a, b) => {
                assert(p[0] == a && p[1] == b);
            },
            Simplex::Triangle(a, b, c) => {
                assert(p[0] == a && p[1] == b && p[2] == c);
            },
            Simplex::Tetrahedron(a, b, c, d) => {
                assert(p[0] == a && p[1] == b && p[2] == c && p[3] == d);
            },
        }
    }
    r
}

/// Adds `v` to `s` unless `s` already holds it.
fn add_distinct(s: &mut Simplex<u64>, v: u64)
    requires
        old(s).points().len() < 4,
    ensures
        final(s).points() == (if old(s).points().contains(v) {
            old(s).points()
        } else {
            old(s).points().push(v)
        }),
{
    if !holds_point(s, v) {
        s.push(v);
    }
}

/// The simplex spanned by the four support points of a collision search,
/// each point given by an identifier: every distinct point once, in the
/// order the points first occur.
pub fn reduce(a: u64, b: u64, c: u64, d: u64) -> (r: Simplex<u64>)
    ensures
        r.points() == distinct_points(seq![a, b, c, d]),
        r.points().no_duplicates(),
        forall|v: u64| r.points().contains(v) <==> seq![a, b, c, d].contains(v),
{
    let mut s = Simplex::Point(a);
    proof {
        assert(seq![a, b].drop_last() =~= seq![a]);
        assert(seq![a, b, c].drop_last() =~= seq![a, b]);
        assert(seq![a, b, c, d].drop_last() =~= seq![a, b, c]);
        assert(seq![a].drop_last() =~= Seq::<u64>::empty());
        assert(distinct_points(Seq::<u64>::empty()) =~= Seq::<u64>::empty());
        assert(!Seq::<u64>::empty().contains(a));
        assert(Seq::<u64>::empty().push(a) =~= seq![a]);
        assert(distinct_points(seq![a]) =~= seq![a]);
    }
    add_distinct(&mut s, b);
    assert(s.points() == distinct_points(seq![a, b]));
    add_distinct(&mut s, c);
    assert(s.points() == distinct_points(seq![a, b, c]));
    add_distinct(&mut s, d);
    proof {
        lemma_distinct_points(seq![a, b, c, d]);
    }
    s
}

/// Keeping each point where it first occurs drops exactly the repeats:
/// no point is left twice, and every point of `s`, and no other, is kept.
pub proof fn lemma_distinct_points(s: Seq<u64>)
    ensures
        distinct_points(s).no_duplicates(),
        forall|v: u64| distinct_points(s).contains(v) <==> s.contains(v),
    decreases s.len(),
{
    if s.len() > 0 {
        let rest = s.drop_last();
        lemma_distinct_points(rest);
        let d = distinct_points(rest);
        assert forall|v: u64| s.contains(v) <==> (rest.contains(v) || v == s.last()) by {
            if s.contains(v) {
                let k = choose|k: int| 0 <= k < s.len() && s[k] == v;
                if k < s.len() - 1 {
                    assert(rest[k] == v);
                }
            }
            if rest.contains(v) {
                let k = choose|k: int| 0 <= k < rest.len() && rest[k] == v;
                assert(s[k] == v);
            }
            if v == s.last() {
                assert(s[s.len() - 1] == v);
            }
        }
        if !d.contains(s.last()) {
            let e = d.push(s.last());
            assert forall|i: int, j: int| 0 <= i < e.len() && 0 <= j < e.len() && i != j implies e[i] != e[j] by {
                if i < d.len() && j < d.len() {
                    assert(d[i] != d[j]);
                } else if i < d.len() {
                    assert(d.contains(e[i]));
                } else {
                    assert(d.contains(e[j]));
                }
            }
            assert forall|v: u64| e.contains(v) <==> (d.contains(v) || v == s.last()) by {
                if e.contains(v) {
                    let k = choose|k: int| 0 <= k < e.len() && e[k] == v;
                    if k < d.len() {
                        assert(d[k] == v);
                    }
                }
                if d.contains(v) {
                    let k = choose|k: int| 0 <= k < d.len() && d[k] == v;
                    assert(e[k] == v);
                }
                if v == s.last() {
                    assert(e[d.len() as int] == v);
                }
            }
        }
    }
}

/// The contact routine for simplices of kinds `one` and `two`, if the pair
/// can arise (a point or an edge always meets something with volume or a
/// face; two points, a point with an edge or a face, cannot touch).
pub open spec fn spec_contact_case(one: SimplexKind, two: SimplexKind) -> Option<ContactCase> {
    match (one, two) {
        (SimplexKind::Point, SimplexKind::Tetrahedron) => Some(ContactCase::PointTet { swapped: false }),
        (SimplexKind::Line, SimplexKind::Line) => Some(ContactCase::EdgeEdge),
        (SimplexKind::Line, SimplexKind::Triangle) => Some(ContactCase::EdgeFace { swapped: false }),
        (SimplexKind::Line, SimplexKind::Tetrahedron) => Some(ContactCase::EdgeTet { swapped: false }),
        (SimplexKind::Triangle, SimplexKind::Line) => Some(ContactCase::EdgeFace { swapped: true }),
        (SimplexKind::Triangle, SimplexKind::Triangle) => Some(ContactCase::FaceFace),
        (SimplexKind::Triangle, SimplexKind::Tetrahedron) => Some(ContactCase::FaceTet { swapped: false }),
        (SimplexKind::Tetrahedron, SimplexKind::Point) => Some(ContactCase::PointTet { swapped: true }),
        (SimplexKind::Tetrahedron, SimplexKind::Line) => Some(ContactCase::EdgeTet { swapped: true }),
        (SimplexKind::Tetrahedron, SimplexKind::Triangle) => Some(ContactCase::FaceTet { swapped: true }),
        (SimplexKind::Tetrahedron, SimplexKind::Tetrahedron) => Some(ContactCase::TetTet),
        _ => None,
    }
}

/// Picks the contact routine for two reduced simplices.
pub fn contact_case(one: SimplexKind, two: SimplexKind) -> (r: Option<ContactCase>)
    ensures
        r == spec_contact_case(one, two),
        r is None <==> (one == SimplexKind::Point && two != SimplexKind::Tetrahedron) || (two == SimplexKind::Point
            && one != SimplexKind::Tetrahedron),
        r matches Some(c) ==> if takes_second_first(c) {
            routine_shapes(c) == (two, one)
        } else {
            routine_shapes(c) == (one, two)
        },
{
    proof {
        lemma_contact_case_routines(one, two);
    }
    match one {
        SimplexKind::Point => match two {
            SimplexKind::Tetrahedron => Some(ContactCase::PointTet { swapped: false }),
            _ => None,
        },
        SimplexKind::Line => match two {
            SimplexKind::Point => None,
            SimplexKind::Line => Some(ContactCase::EdgeEdge),
            SimplexKind::Triangle => Some(ContactCase::EdgeFace { swapped: false }),
            SimplexKind::Tetrahedron => Some(ContactCase::EdgeTet { swapped: false }),
        },
        SimplexKind::Triangle => match two {
            SimplexKind::Point => None,
            SimplexKind::Line => Some(ContactCase::EdgeFace { swapped: true }),
            SimplexKind::Triangle => Some(ContactCase::FaceFace),
            SimplexKind::Tetrahedron => Some(ContactCase::FaceTet { swapped: false }),
        },
        SimplexKind::Tetrahedron => match two {
            SimplexKind::Point => Some(ContactCase::PointTet { swapped: true }),
            SimplexKind::Line => Some(ContactCase::EdgeTet { swapped: true }),
            SimplexKind::Triangle => Some(ContactCase::FaceTet { swapped: true }),
            SimplexKind::Tetrahedron => Some(ContactCase::TetTet),
        },
    }
}

/// The shapes a contact routine takes, in its argument order.
pub open spec fn routine_shapes(c: ContactCase) -> (SimplexKind, SimplexKind) {
    match c {
        ContactCase::PointTet { .. } => (SimplexKind::Point, SimplexKind::Tetrahedron),
        ContactCase::EdgeEdge => (SimplexKind::Line, SimplexKind::Line),
        ContactCase::EdgeFace { .. } => (SimplexKind::Line, SimplexKind::Triangle),
        ContactCase::EdgeTet { .. } => (SimplexKind::Line, SimplexKind::Tetrahedron),
        ContactCase::FaceFace => (SimplexKind::Triangle, SimplexKind::Triangle),
        ContactCase::FaceTet { .. } => (SimplexKind::Triangle, SimplexKind::Tetrahedron),
        ContactCase::TetTet => (SimplexKind::Tetrahedron, SimplexKind::Tetrahedron),
    }
}

/// Whether a contact routine takes the second simplex first.
pub open spec fn takes_second_first(c: ContactCase) -> bool {
    match c {
        ContactCase::PointTet { swapped } => swapped,
        ContactCase::EdgeFace { swapped } => swapped,
        ContactCase::EdgeTet { swapped } => swapped,
        ContactCase::FaceTet { swapped } => swapped,
        _ => false,
    }
}

/// Exactly the pairs in which a point meets anything but a tetrahedron
/// have no contact routine. Every other pair has one, and that routine
/// takes the pair's two shapes: in their order, or the second first when
/// it is marked swapped (so two triangles go to the face-face routine,
/// two lines to the edge-edge one).
pub proof fn lemma_contact_case_routines(one: SimplexKind, two: SimplexKind)
    ensures
        spec_contact_case(one, two) is None <==> (one == SimplexKind::Point && two != SimplexKind::Tetrahedron)
            || (two == SimplexKind::Point && one != SimplexKind::Tetrahedron),
        spec_contact_case(one, two) matches Some(c) ==> if takes_second_first(c) {
            routine_shapes(c) == (two, one)
        } else {
            routine_shapes(c) == (one, two)
        },
{
}

/// Exchanging the two simplices swaps the routine's arguments and nothing
/// else (two of a kind are resolved by the same routine either way).
pub proof fn lemma_contact_case_swap(one: SimplexKind, two: SimplexKind)
    ensures
        spec_contact_case(one, two) is Some <==> spec_contact_case(two, one) is Some,
        spec_contact_case(one, two) matches Some(ContactCase::PointTet { swapped: s })
            ==> spec_contact_case(two, one) == Some(ContactCase::PointTet { swapped: !s }),
        spec_contact_case(one, two) matches Some(ContactCase::EdgeFace { swapped: s })
            ==> spec_contact_case(two, one) == Some(ContactCase::EdgeFace { swapped: !s }),
        spec_contact_case(one, two) matches Some(ContactCase::EdgeTet { swapped: s })
            ==> spec_contact_case(two, one) == Some(ContactCase::EdgeTet { swapped: !s }),
        spec_contact_case(one, two) matches Some(ContactCase::FaceTet { swapped: s })
            ==> spec_contact_case(two, one) == Some(ContactCase::FaceTet { swapped: !s }),
{
}

/// Cube support vertex identifiers: bit 2 clear for positive x, bit 1
/// clear for positive y, bit 0 clear for positive z.
pub open spec fn spec_cube_vertex_id(x_positive: bool, y_positive: bool, z_positive: bool) -> usize {
    ((if x_positive { 0int } else { 4int }) + (if y_positive { 0int } else { 2int }) + (if z_positive {
        0int
    } else {
        1int
    })) as usize
}

/// The cube vertex furthest in a direction, from the signs of the
/// direction's components (a zero component counts as negative).
pub fn cube_vertex_id(x_positive: bool, y_positive: bool, z_positive: bool) -> (r: usize)
    ensures
        r == spec_cube_vertex_id(x_positive, y_positive, z_positive),
        r < 8,
{
    if x_positive {
        if y_positive {
            if z_positive { 0 } else { 1 }
        } else {
            if z_positive { 2 } else { 3 }
        }
    } else {
        if y_positive {
            if z_positive { 4 } else { 5 }
        } else {
            if z_positive { 6 } else { 7 }
        }
    }
}

/// The signs of the coordinates of cube vertex `id` (true for positive).
pub fn cube_vertex_signs(id: usize) -> (r: (bool, bool, bool))
    requires
        id < 8,
    ensures
        spec_cube_vertex_id(r.0, r.1, r.2) == id,
{
    (id < 4, id % 4 < 2, id % 2 == 0)
}

/// A vertex id names the vertex whose coordinate signs give back the id.
pub proof fn lemma_cube_vertex_roundtrip(x_positive: bool, y_positive: bool, z_positive: bool)
    ensures
        ({
            let id = spec_cube_vertex_id(x_positive, y_positive, z_positive);
            (id < 4, id % 4 < 2, id % 2 == 0) == (x_positive, y_positive, z_positive)
        }),
{
}

/// The iteration count of a collision search.
pub struct GJKState {
    num_iter: u32,
}

impl GJKState {
    /// How many refinements the search has made.
    pub closed spec fn iterations(self) -> u32 {
        self.num_iter
    }

    /// A search that has not refined yet.
    pub fn new() -> (r: GJKState)
        ensures
            r.iterations() == 0,
    {
        GJKState { num_iter: 0 }
    }

    /// Counts one refinement; returns whether the search has now run past
    /// `MAX_ITERATIONS` and must give up.
    pub fn count_iteration(&mut self) -> (too_many: bool)
        requires
            old(self).iterations() < u32::MAX,
        ensures
            final(self).iterations() == old(self).iterations() + 1,
            too_many == (final(self).iterations() > MAX_ITERATIONS),
    {
        self.num_iter = self.num_iter + 1;
        self.num_iter > MAX_ITERATIONS
    }
}

} // verus!
