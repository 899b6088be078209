use vstd::prelude::*;

verus! {

/// Number of edge points of a prism cell that a surface can cross.
pub const EDGE_POINTS: u8 = 9;

/// The triangles (as triples of edge points, padded with zeros) that cut a
/// prism cell for each of the 64 patterns of its corners' signs.
pub const TRIANGULATION_DATA: [[u8; 9]; 64] = [
    [0, 0, 0, 0, 0, 0, 0, 0, 0],
    [2, 1, 3, 0, 0, 0, 0, 0, 0],
    [0, 2, 4, 0, 0, 0, 0, 0, 0],
    [1, 2, 3, 0, 3, 4, 0, 0, 0],
    [1, 0, 5, 0, 0, 0, 0, 0, 0],
    [2, 0, 3, 0, 5, 3, 0, 0, 0],
    [2, 4, 1, 1, 4, 5, 0, 0, 0],
    [3, 4, 5, 0, 0, 0, 0, 0, 0],
    [3, 0, 7, 0, 0, 0, 0, 0, 0],
    [2, 1, 8, 8, 1, 7, 0, 0, 0],
    [3, 8, 7, 2, 0, 4, 0, 0, 0],
    [1, 7, 8, 8, 0, 1, 8, 4, 0],
    [3, 7, 8, 1, 5, 0, 0, 0, 0],
    [5, 7, 8, 8, 0, 5, 8, 2, 0],
    [1, 2, 3, 5, 7, 8, 8, 4, 5],
    [5, 7, 8, 8, 4, 5, 0, 0, 0],
    [4, 8, 6, 0, 0, 0, 0, 0, 0],
    [4, 8, 6, 2, 1, 3, 0, 0, 0],
    [0, 2, 8, 0, 8, 6, 0, 0, 0],
    [1, 3, 8, 8, 0, 1, 8, 6, 0],
    [1, 0, 5, 4, 8, 6, 0, 0, 0],
    [4, 8, 6, 0, 2, 3, 3, 5, 0],
    [5, 8, 6, 5, 1, 8, 1, 2, 8],
    [5, 3, 8, 8, 6, 5, 0, 0, 0],
    [7, 3, 4, 4, 6, 7, 0, 0, 0],
    [6, 7, 1, 1, 4, 6, 1, 2, 4],
    [7, 3, 6, 6, 3, 0, 0, 3, 2],
    [7, 6, 1, 1, 6, 0, 0, 0, 0],
    [7, 6, 5, 1, 0, 3, 0, 4, 3],
    [5, 7, 6, 2, 0, 4, 0, 0, 0],
    [5, 7, 6, 1, 2, 3, 0, 0, 0],
    [5, 7, 6, 0, 0, 0, 0, 0, 0],
    [5, 6, 7, 0, 0, 0, 0, 0, 0],
    [5, 6, 7, 2, 1, 3, 0, 0, 0],
    [5, 6, 7, 2, 1, 3, 0, 0, 0],
    [5, 6, 7, 1, 3, 4, 0, 1, 4],
    [1, 0, 7, 0, 6, 7, 0, 0, 0],
    [3, 6, 7, 3, 2, 6, 2, 0, 6],
    [7, 1, 6, 1, 2, 6, 2, 4, 6],
    [3, 4, 7, 4, 6, 7, 0, 0, 0],
    [8, 3, 5, 5, 6, 8, 0, 0, 0],
    [8, 5, 6, 8, 1, 5, 8, 2, 1],
    [8, 3, 5, 5, 6, 8, 0, 2, 4],
    [1, 0, 5, 4, 6, 8, 0, 0, 0],
    [3, 1, 8, 1, 0, 8, 0, 6, 8],
    [2, 0, 8, 8, 0, 6, 0, 0, 0],
    [1, 2, 3, 4, 6, 8, 0, 0, 0],
    [4, 6, 8, 0, 0, 0, 0, 0, 0],
    [7, 5, 8, 4, 8, 5, 0, 0, 0],
    [7, 5, 8, 4, 8, 5, 1, 3, 2],
    [7, 5, 8, 5, 0, 8, 0, 2, 8],
    [3, 7, 8, 1, 0, 5, 0, 0, 0],
    [1, 8, 7, 1, 0, 8, 0, 4, 8],
    [3, 8, 7, 2, 0, 4, 0, 0, 0],
    [7, 1, 2, 2, 8, 7, 0, 0, 0],
    [3, 8, 7, 0, 0, 0, 0, 0, 0],
    [4, 3, 5, 0, 0, 0, 0, 0, 0],
    [2, 1, 5, 5, 4, 2, 0, 0, 0],
    [2, 3, 5, 5, 0, 2, 0, 0, 0],
    [0, 1, 5, 0, 0, 0, 0, 0, 0],
    [0, 4, 3, 3, 1, 0, 0, 0, 0],
    [2, 0, 4, 0, 0, 0, 0, 0, 0],
    [1, 2, 3, 0, 0, 0, 0, 0, 0],
    [0, 0, 0, 0, 0, 0, 0, 0, 0]
];

/// How many triangles each pattern of `TRIANGULATION_DATA` holds.
pub const TRIANGULATION_COUNTS: [usize; 64] = [0, 1, 1, 2, 1, 2, 2, 1, 1, 2, 2, 3, 2, 3, 3, 2, 1, 2, 2, 3, 2, 3, 3, 2, 2, 3, 3, 2, 3, 2, 2, 1, 1, 2, 2, 3, 2, 3, 3, 2, 2, 3, 3, 2, 3, 2, 2, 1, 2, 3, 3, 2, 3, 2, 2, 1, 1, 2, 2, 1, 2, 1, 1, 0];

/// Up to three triangles over the edge points of a prism cell.
pub struct Triangulation {
    pub data: [u8; 9],
    pub tri_count: usize,
}

impl Triangulation {
    /// Well formed: at most three triangles, each over edge points, and
    /// the unused entries zero.
    pub open spec fn wf(self) -> bool {
        &&& self.tri_count <= 3
        &&& forall|k: int| 0 <= k < 3 * self.tri_count ==> self.data@[k] < EDGE_POINTS
        &&& forall|k: int| 3 * self.tri_count <= k < 9 ==> self.data@[k] == 0
    }

    /// No triangle.
    pub fn new0() -> (r: Self)
        ensures
            r.data@ == seq![0u8, 0, 0, 0, 0, 0, 0, 0, 0],
            r.tri_count == 0,
    {
        let r = Self { data: [0, 0, 0, 0, 0, 0, 0, 0, 0], tri_count: 0 };
        assert(r.data@ =~= seq![0u8, 0, 0, 0, 0, 0, 0, 0, 0]);
        r
    }

    /// One triangle.
    pub fn new1(data: [u8; 3]) -> (r: Self)
        ensures
            r.data@ == data@ + seq![0u8, 0, 0, 0, 0, 0],
            r.tri_count == 1,
    {
        let r = Self { data: [data[0], data[1], data[2], 0, 0, 0, 0, 0, 0], tri_count: 1 };
        assert(r.data@ =~= data@ + seq![0u8, 0, 0, 0, 0, 0]);
        r
    }

    /// Two triangles.
    pub fn new2(data: [u8; 6]) -> (r: Self)
        ensures
            r.data@ == data@ + seq![0u8, 0, 0],
            r.tri_count == 2,
    {
        let r = Self {
            data: [data[0], data[1], data[2], data[3], data[4], data[5], 0, 0, 0],
            tri_count: 2,
        };
        assert(r.data@ =~= data@ + seq![0u8, 0, 0]);
        r
    }

    /// Three triangles.
    pub fn new3(data: [u8; 9]) -> (r: Self)
        ensures
            r.data == data,
            r.tri_count == 3,
    {
        Self { data, tri_count: 3 }
    }
}

/// The triangulation of corner-sign pattern `case`.
pub fn triangulation(case: usize) -> (r: Triangulation)
    requires
        case < 64,
    ensures
        r.data == TRIANGULATION_DATA@[case as int],
        r.tri_count == TRIANGULATION_COUNTS@[case as int],
{
    Triangulation { data: TRIANGULATION_DATA[case], tri_count: TRIANGULATION_COUNTS[case] }
}

/// Every pattern's triangulation is well formed: at most three triangles,
/// over edge points only, zero-padded.
pub proof fn lemma_triangulations_wf(case: int)
    requires
        0 <= case < 64,
    ensures
        (Triangulation { data: TRIANGULATION_DATA@[case], tri_count: TRIANGULATION_COUNTS@[case] }).wf(),
{
    assert(TRIANGULATION_COUNTS@ =~= seq![0usize, 1, 1, 2, 1, 2, 2, 1, 1, 2, 2, 3, 2, 3, 3, 2, 1, 2, 2, 3, 2, 3, 3, 2, 2, 3, 3, 2, 3, 2, 2, 1, 1, 2, 2, 3, 2, 3, 3, 2, 2, 3, 3, 2, 3, 2, 2, 1, 2, 3, 3, 2, 3, 2, 2, 1, 1, 2, 2, 1, 2, 1, 1, 0]);
    assert(TRIANGULATION_DATA@[0]@ =~= seq![0u8, 0, 0, 0, 0, 0, 0, 0, 0]);
    assert(TRIANGULATION_DATA@[1]@ =~= seq![2u8, 1, 3, 0, 0, 0, 0, 0, 0]);
    assert(TRIANGULATION_DATA@[2]@ =~= seq![0u8, 2, 4, 0, 0, 0, 0, 0, 0]);
    assert(TRIANGULATION_DATA@[3]@ =~= seq![1u8, 2, 3, 0, 3, 4, 0, 0, 0]);
    assert(TRIANGULATION_DATA@[4]@ =~= seq![1u8, 0, 5, 0, 0, 0, 0, 0, 0]);
    assert(TRIANGULATION_DATA@[5]@ =~= seq![2u8, 0, 3, 0, 5, 3, 0, 0, 0]);
    assert(TRIANGULATION_DATA@[6]@ =~= seq![2u8, 4, 1, 1, 4, 5, 0, 0, 0]);
    assert(TRIANGULATION_DATA@[7]@ =~= seq![3u8, 4, 5, 0, 0, 0, 0, 0, 0]);
    assert(TRIANGULATION_DATA@[8]@ =~= seq![3u8, 0, 7, 0, 0, 0, 0, 0, 0]);
    assert(TRIANGULATION_DATA@[9]@ =~= seq![2u8, 1, 8, 8, 1, 7, 0, 0, 0]);
    assert(TRIANGULATION_DATA@[10]@ =~= seq![3u8, 8, 7, 2, 0, 4, 0, 0, 0]);
    assert(TRIANGULATION_DATA@[11]@ =~= seq![1u8, 7, 8, 8, 0, 1, 8, 4, 0]);
    assert(TRIANGULATION_DATA@[12]@ =~= seq![3u8, 7, 8, 1, 5, 0, 0, 0, 0]);
    assert(TRIANGULATION_DATA@[13]@ =~= seq![5u8, 7, 8, 8, 0, 5, 8, 2, 0]);
    assert(TRIANGULATION_DATA@[14]@ =~= seq![1u8, 2, 3, 5, 7, 8, 8, 4, 5]);
    assert(TRIANGULATION_DATA@[15]@ =~= seq![5u8, 7, 8, 8, 4, 5, 0, 0, 0]);
    assert(TRIANGULATION_DATA@[16]@ =~= seq![4u8, 8, 6, 0, 0, 0, 0, 0, 0]);
    assert(TRIANGULATION_DATA@[17]@ =~= seq![4u8, 8, 6, 2, 1, 3, 0, 0, 0]);
    assert(TRIANGULATION_DATA@[18]@ =~= seq![0u8, 2, 8, 0, 8, 6, 0, 0, 0]);
    assert(TRIANGULATION_DATA@[19]@ =~= seq![1u8, 3, 8, 8, 0, 1, 8, 6, 0]);
    assert(TRIANGULATION_DATA@[20]@ =~= seq![1u8, 0, 5, 4, 8, 6, 0, 0, 0]);
    assert(TRIANGULATION_DATA@[21]@ =~= seq![4u8, 8, 6, 0, 2, 3, 3, 5, 0]);
    assert(TRIANGULATION_DATA@[22]@ =~= seq![5u8, 8, 6, 5, 1, 8, 1, 2, 8]);
    assert(TRIANGULATION_DATA@[23]@ =~= seq![5u8, 3, 8, 8, 6, 5, 0, 0, 0]);
    assert(TRIANGULATION_DATA@[24]@ =~= seq![7u8, 3, 4, 4, 6, 7, 0, 0, 0]);
    assert(TRIANGULATION_DATA@[25]@ =~= seq![6u8, 7, 1, 1, 4, 6, 1, 2, 4]);
    assert(TRIANGULATION_DATA@[26]@ =~= seq![7u8, 3, 6, 6, 3, 0, 0, 3, 2]);
    assert(TRIANGULATION_DATA@[27]@ =~= seq![7u8, 6, 1, 1, 6, 0, 0, 0, 0]);
    assert(TRIANGULATION_DATA@[28]@ =~= seq![7u8, 6, 5, 1, 0, 3, 0, 4, 3]);
    assert(TRIANGULATION_DATA@[29]@ =~= seq![5u8, 7, 6, 2, 0, 4, 0, 0, 0]);
    assert(TRIANGULATION_DATA@[30]@ =~= seq![5u8, 7, 6, 1, 2, 3, 0, 0, 0]);
    assert(TRIANGULATION_DATA@[31]@ =~= seq![5u8, 7, 6, 0, 0, 0, 0, 0, 0]);
    assert(TRIANGULATION_DATA@[32]@ =~= seq![5u8, 6, 7, 0, 0, 0, 0, 0, 0]);
    assert(TRIANGULATION_DATA@[33]@ =~= seq![5u8, 6, 7, 2, 1, 3, 0, 0, 0]);
    assert(TRIANGULATION_DATA@[34]@ =~= seq![5u8, 6, 7, 2, 1, 3, 0, 0, 0]);
    assert(TRIANGULATION_DATA@[35]@ =~= seq![5u8, 6, 7, 1, 3, 4, 0, 1, 4]);
    assert(TRIANGULATION_DATA@[36]@ =~= seq![1u8, 0, 7, 0, 6, 7, 0, 0, 0]);
    assert(TRIANGULATION_DATA@[37]@ =~= seq![3u8, 6, 7, 3, 2, 6, 2, 0, 6]);
    assert(TRIANGULATION_DATA@[38]@ =~= seq![7u8, 1, 6, 1, 2, 6, 2, 4, 6]);
    assert(TRIANGULATION_DATA@[39]@ =~= seq![3u8, 4, 7, 4, 6, 7, 0, 0, 0]);
    assert(TRIANGULATION_DATA@[40]@ =~= seq![8u8, 3, 5, 5, 6, 8, 0, 0, 0]);
    assert(TRIANGULATION_DATA@[41]@ =~= seq![8u8, 5, 6, 8, 1, 5, 8, 2, 1]);
    assert(TRIANGULATION_DATA@[42]@ =~= seq![8u8, 3, 5, 5, 6, 8, 0, 2, 4]);
    assert(TRIANGULATION_DATA@[43]@ =~= seq![1u8, 0, 5, 4, 6, 8, 0, 0, 0]);
    assert(TRIANGULATION_DATA@[44]@ =~= seq![3u8, 1, 8, 1, 0, 8, 0, 6, 8]);
    assert(TRIANGULATION_DATA@[45]@ =~= seq![2u8, 0, 8, 8, 0, 6, 0, 0, 0]);
    assert(TRIANGULATION_DATA@[46]@ =~= seq![1u8, 2, 3, 4, 6, 8, 0, 0, 0]);
    assert(TRIANGULATION_DATA@[47]@ =~= seq![4u8, 6, 8, 0, 0, 0, 0, 0, 0]);
    assert(TRIANGULATION_DATA@[48]@ =~= seq![7u8, 5, 8, 4, 8, 5, 0, 0, 0]);
    assert(TRIANGULATION_DATA@[49]@ =~= seq![7u8, 5, 8, 4, 8, 5, 1, 3, 2]);
    assert(TRIANGULATION_DATA@[50]@ =~= seq![7u8, 5, 8, 5, 0, 8, 0, 2, 8]);
    assert(TRIANGULATION_DATA@[51]@ =~= seq![3u8, 7, 8, 1, 0, 5, 0, 0, 0]);
    assert(TRIANGULATION_DATA@[52]@ =~= seq![1u8, 8, 7, 1, 0, 8, 0, 4, 8]);
    assert(TRIANGULATION_DATA@[53]@ =~= seq![3u8, 8, 7, 2, 0, 4, 0, 0, 0]);
    assert(TRIANGULATION_DATA@[54]@ =~= seq![7u8, 1, 2, 2, 8, 7, 0, 0, 0]);
    assert(TRIANGULATION_DATA@[55]@ =~= seq![3u8, 8, 7, 0, 0, 0, 0, 0, 0]);
    assert(TRIANGULATION_DATA@[56]@ =~= seq![4u8, 3, 5, 0, 0, 0, 0, 0, 0]);
    assert(TRIANGULATION_DATA@[57]@ =~= seq![2u8, 1, 5, 5, 4, 2, 0, 0, 0]);
    assert(TRIANGULATION_DATA@[58]@ =~= seq![2u8, 3, 5, 5, 0, 2, 0, 0, 0]);
    assert(TRIANGULATION_DATA@[59]@ =~= seq![0u8, 1, 5, 0, 0, 0, 0, 0, 0]);
    assert(TRIANGULATION_DATA@[60]@ =~= seq![0u8, 4, 3, 3, 1, 0, 0, 0, 0]);
    assert(TRIANGULATION_DATA@[61]@ =~= seq![2u8, 0, 4, 0, 0, 0, 0, 0, 0]);
    assert(TRIANGULATION_DATA@[62]@ =~= seq![1u8, 2, 3, 0, 0, 0, 0, 0, 0]);
    assert(TRIANGULATION_DATA@[63]@ =~= seq![0u8, 0, 0, 0, 0, 0, 0, 0, 0]);
}

} // verus!
