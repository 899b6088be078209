use vstd::prelude::*;

verus! {

/// Identifies one triangular map cell: the icosahedron face and the cell's
/// number within the face, numbered row by row (row `r` holds `2r + 1` cells).
#[derive(PartialEq, Eq, Structural, Hash, Copy, Clone, Debug)]
pub struct MapID {
    face: u8,
    map: u8,
}

impl MapID {
    /// The face.
    pub closed spec fn face(self) -> u8 {
        self.face
    }

    /// The cell number within the face.
    pub closed spec fn map(self) -> u8 {
        self.map
    }

    /// The cell `map` of face `face`.
    pub fn new(face: u8, map: u8) -> (r: MapID)
        ensures
            r.face() == face,
            r.map() == map,
    {
        MapID { face, map }
    }

    /// The row of the cell and its position within the row: the row is the
    /// largest `r` with `r * r <= map`. Cells 225 and above are out of
    /// reach: the search for their row overflows a byte.
    pub fn row_and_offset(&self) -> (r: (u8, u8))
        requires
            self.map() < 225,
        ensures
            r.0 * r.0 <= self.map() < (r.0 + 1) * (r.0 + 1),
            r.1 == self.map() - r.0 * r.0,
    {
        let mut row: u8 = 0;
        while (row + 1) * (row + 1) <= self.map
            invariant
                row * row <= self.map,
                self.map < 225,
                row <= 14,
                (row + 1) * (row + 1) <= 225,
            decreases 14 - row,
        {
            proof {
                assert(row + 1 <= 14) by (nonlinear_arith)
                    requires
                        (row + 1) * (row + 1) <= self.map,
                        self.map < 225,
                ;
            }
            row = row + 1;
            proof {
                assert((row + 1) * (row + 1) <= 225) by (nonlinear_arith)
                    requires
                        row <= 14,
                ;
            }
        }
        (row, self.map - row * row)
    }
}

/// Whether a cell points up: even positions within a row point up, odd
/// positions point down.
pub open spec fn points_up(offset: u8) -> bool {
    offset % 2 == 0
}

} // verus!
