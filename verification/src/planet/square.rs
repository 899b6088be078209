use vstd::prelude::*;
use super::LoadDegree;

verus! {

/// For each cube face, the face that lies beyond each of its edges,
/// in the order top, right, bottom, left.
pub const ADJACENCIES: [[u8; 4]; 6] = [
    [5, 2, 4, 3],
    [5, 2, 4, 3],
    [1, 4, 0, 5],
    [1, 4, 0, 5],
    [3, 0, 2, 1],
    [3, 0, 2, 1],
];

/// The face beyond edge `edge` of face `face`.
pub open spec fn adjacency(face: int, edge: int) -> int {
    ADJACENCIES@[face]@[edge] as int
}

/// Identifies one map square on a cube planet: the face and the row and
/// column of the square within that face.
#[derive(PartialEq, Eq, Structural, Hash, Copy, Clone, Debug)]
pub struct MapID {
    pub face: u8,
    pub map_row: u8,
    pub map_col: u8,
}

/// The value of a byte reinterpreted as a signed byte.
pub open spec fn as_signed(x: u8) -> int {
    if x < 128 { x as int } else { x as int - 256 }
}

pub open spec fn abs(x: int) -> int {
    if x < 0 { -x } else { x }
}

pub open spec fn max(x: int, y: int) -> int {
    if x < y { y } else { x }
}

/// Distance (in squares) from a square to the edge `edge` of its face.
pub open spec fn spec_edge_dist(id: MapID, edge: int, face_subdivision: int) -> int {
    if edge == 0 {
        id.map_col as int
    } else if edge == 1 {
        face_subdivision - id.map_row - 1
    } else if edge == 2 {
        face_subdivision - id.map_col - 1
    } else {
        id.map_row as int
    }
}

/// The first edge of face `from` (searching top, right, bottom, left) beyond
/// which face `to` lies.
pub open spec fn edge_towards(from: int, to: int) -> Option<int> {
    if adjacency(from, 0) == to {
        Some(0)
    } else if adjacency(from, 1) == to {
        Some(1)
    } else if adjacency(from, 2) == to {
        Some(2)
    } else if adjacency(from, 3) == to {
        Some(3)
    } else {
        None
    }
}

/// Chebyshev distance between two squares of one face, with rows and
/// columns read as signed bytes.
pub open spec fn same_face_dist(a: MapID, b: MapID) -> int {
    max(
        abs(as_signed(a.map_row) - as_signed(b.map_row)),
        abs(as_signed(a.map_col) - as_signed(b.map_col)),
    )
}

/// Distance between two squares: on one face the Chebyshev distance; on
/// adjacent faces the distances of both squares to the shared edge plus one;
/// otherwise `i32::MAX`.
pub open spec fn spec_dist(a: MapID, b: MapID, face_subdivision: int) -> int {
    if a.face == b.face {
        same_face_dist(a, b)
    } else {
        match edge_towards(a.face as int, b.face as int) {
            None => i32::MAX as int,
            Some(ea) => match edge_towards(b.face as int, a.face as int) {
                None => i32::MAX as int,
                Some(eb) => spec_edge_dist(a, ea, face_subdivision) + spec_edge_dist(b, eb, face_subdivision) + 1,
            },
        }
    }
}

/// The inputs on which `MapID::dist` is defined: on one face the signed
/// differences of rows and of columns lie strictly inside the `i8` range;
/// on different faces the first face is one of the six.
pub open spec fn dist_defined(a: MapID, b: MapID) -> bool {
    if a.face == b.face {
        &&& -127 <= as_signed(a.map_row) - as_signed(b.map_row) <= 127
        &&& -127 <= as_signed(a.map_col) - as_signed(b.map_col) <= 127
    } else {
        a.face < 6
    }
}

proof fn lemma_as_i8(x: u8)
    ensures
        (x as i8) as int == as_signed(x),
{
    assert(x < 128 ==> (x as i8) as int == x as int) by (bit_vector);
    assert(x >= 128 ==> (x as i8) as int == x as int - 256) by (bit_vector);
}

/// `|x - y|` for signed bytes whose difference stays strictly inside the `i8` range.
fn abs_diff_i8(x: i8, y: i8) -> (r: i8)
    requires
        -127 <= x - y <= 127,
    ensures
        r as int == abs(x - y),
{
    let d = x - y;
    if d < 0 {
        -d
    } else {
        d
    }
}

/// Whether `MapID::dist` is defined on `a` and `b` (`dist_defined`).
pub fn dist_is_defined(a: MapID, b: MapID) -> (r: bool)
    ensures
        r == dist_defined(a, b),
{
    if a.face == b.face {
        proof {
            lemma_as_i8(a.map_row);
            lemma_as_i8(b.map_row);
            lemma_as_i8(a.map_col);
            lemma_as_i8(b.map_col);
        }
        let dr: i16 = (a.map_row as i8) as i16 - (b.map_row as i8) as i16;
        let dc: i16 = (a.map_col as i8) as i16 - (b.map_col as i8) as i16;
        -127 <= dr && dr <= 127 && -127 <= dc && dc <= 127
    } else {
        a.face < 6
    }
}

impl MapID {
    /// The map distance between squares `a` and `b` on a planet whose faces
    /// have `face_subdivision` squares per side.
    pub fn dist(a: MapID, b: MapID, face_subdivision: u8) -> (r: i32)
        requires
            dist_defined(a, b),
        ensures
            r as int == spec_dist(a, b, face_subdivision as int),
    {
        if a.face == b.face {
            proof {
                lemma_as_i8(a.map_row);
                lemma_as_i8(b.map_row);
                lemma_as_i8(a.map_col);
                lemma_as_i8(b.map_col);
            }
            let dr = abs_diff_i8(a.map_row as i8, b.map_row as i8);
            let dc = abs_diff_i8(a.map_col as i8, b.map_col as i8);
            let m = if dr < dc { dc } else { dr };
            m as i32
        } else {
            let row = ADJACENCIES[a.face as usize];
            let a_dist = if row[0] == b.face {
                a.edge_dist(0, face_subdivision)
            } else if row[1] == b.face {
                a.edge_dist(1, face_subdivision)
            } else if row[2] == b.face {
                a.edge_dist(2, face_subdivision)
            } else if row[3] == b.face {
                a.edge_dist(3, face_subdivision)
            } else {
                return i32::MAX;
            };
            let brow = ADJACENCIES[b.face as usize];
            let b_dist = if brow[0] == a.face {
                b.edge_dist(0, face_subdivision)
            } else if brow[1] == a.face {
                b.edge_dist(1, face_subdivision)
            } else if brow[2] == a.face {
                b.edge_dist(2, face_subdivision)
            } else if brow[3] == a.face {
                b.edge_dist(3, face_subdivision)
            } else {
                return i32::MAX;
            };
            a_dist + b_dist + 1
        }
    }

    /// Distance from this square to edge `edge` (0 top, 1 right, 2 bottom,
    /// 3 left) of its face.
    pub fn edge_dist(&self, edge: u8, face_subdivision: u8) -> (r: i32)
        requires
            edge < 4,
        ensures
            r as int == spec_edge_dist(*self, edge as int, face_subdivision as int),
            -256 <= r < 256,
    {
        match edge {
            0 => self.map_col as i32,
            1 => face_subdivision as i32 - self.map_row as i32 - 1,
            2 => face_subdivision as i32 - self.map_col as i32 - 1,
            _ => self.map_row as i32,
        }
    }
}

/// Squares per side of a map square's vertex grid at `degree`: the map
/// subdivision halved once per step of the degree.
pub fn lod_subdivision(map_subdivision: u32, degree: LoadDegree) -> (r: u32)
    ensures
        r == (match degree {
            LoadDegree::High => map_subdivision,
            LoadDegree::Low => map_subdivision / 2,
        }),
{
    let shift = degree.shift();
    proof {
        assert(map_subdivision >> 0u8 == map_subdivision) by (bit_vector);
        assert(map_subdivision >> 1u8 == map_subdivision / 2) by (bit_vector);
    }
    map_subdivision >> shift
}

/// Index of vertex (`row`, `col`) in a grid with `m + 1` vertices per row.
pub open spec fn grid_index(m: int, row: int, col: int) -> int {
    row * (m + 1) + col
}

/// The grid indices of the four corners of cell (`row`, `col`) of a grid
/// of `m` x `m` cells, going round the cell: (row, col), (row, col + 1),
/// (row + 1, col + 1), (row + 1, col).
pub fn cell_corners(m: u32, row: u32, col: u32) -> (r: [usize; 4])
    requires
        row < m,
        col < m,
        (row + 1) * (m + 1) + col + 1 <= u32::MAX,
    ensures
        r@ == seq![
            grid_index(m as int, row as int, col as int) as usize,
            grid_index(m as int, row as int, col + 1) as usize,
            grid_index(m as int, row + 1, col + 1) as usize,
            grid_index(m as int, row + 1, col as int) as usize,
        ],
        forall|k: int| 0 <= k < 4 ==> r@[k] < (m + 1) * (m + 1),
{
    proof {
        assert((row + 1) * (m + 1) + col + 1 < (m + 1) * (m + 1)) by (nonlinear_arith)
            requires
                row < m,
                col < m,
        ;
        assert(row * (m + 1) <= (row + 1) * (m + 1)) by (nonlinear_arith);
        assert(0 <= row * (m + 1)) by (nonlinear_arith);
        assert(m + 1 <= (row + 1) * (m + 1)) by (nonlinear_arith);
    }
    let w = m + 1;
    let a = row * w + col;
    let b = (row + 1) * w + col;
    let r = [a as usize, (a + 1) as usize, (b + 1) as usize, b as usize];
    assert(r@ =~= seq![
        grid_index(m as int, row as int, col as int) as usize,
        grid_index(m as int, row as int, col + 1) as usize,
        grid_index(m as int, row + 1, col + 1) as usize,
        grid_index(m as int, row + 1, col as int) as usize,
    ]);
    assert(forall|k: int| 0 <= k < 4 ==> r@[k] <= b + 1);
    assert(b + 1 < (m + 1) * (m + 1));
    r
}

/// A face lies beyond some edge of another face exactly when the second
/// lies beyond some edge of the first; no face borders itself.
pub proof fn lemma_adjacency_symmetric(f: int, g: int)
    requires
        0 <= f < 6,
        0 <= g < 6,
    ensures
        edge_towards(f, g) is Some <==> edge_towards(g, f) is Some,
        edge_towards(f, f) is None,
{
    assert(ADJACENCIES@[0]@ =~= seq![5u8, 2, 4, 3]);
    assert(ADJACENCIES@[1]@ =~= seq![5u8, 2, 4, 3]);
    assert(ADJACENCIES@[2]@ =~= seq![1u8, 4, 0, 5]);
    assert(ADJACENCIES@[3]@ =~= seq![1u8, 4, 0, 5]);
    assert(ADJACENCIES@[4]@ =~= seq![3u8, 0, 2, 1]);
    assert(ADJACENCIES@[5]@ =~= seq![3u8, 0, 2, 1]);
}

/// The distance from a square to itself is zero.
pub proof fn lemma_dist_self(a: MapID, face_subdivision: int)
    ensures
        dist_defined(a, a),
        spec_dist(a, a, face_subdivision) == 0,
{
}

/// Map distance is symmetric wherever it is defined both ways.
pub proof fn lemma_dist_symmetric(a: MapID, b: MapID, face_subdivision: int)
    requires
        dist_defined(a, b),
        dist_defined(b, a),
    ensures
        spec_dist(a, b, face_subdivision) == spec_dist(b, a, face_subdivision),
{
    if a.face != b.face {
        lemma_adjacency_symmetric(a.face as int, b.face as int);
    }
}

} // verus!
