use vstd::prelude::*;
use crate::lepton::fonts::{N_CHARS, N_COLS, N_ROWS};

verus! {

/// The first character an atlas holds (space).
pub const FIRST_CHAR: u32 = 32;

/// One past the last character an atlas holds.
pub const END_CHAR: u32 = 128;

/// The six indices of glyph quad `v`'s two triangles: corners 0, 1, 2 and
/// 1, 3, 2 of its four vertices.
pub open spec fn quad_index(v: int, k: int) -> int {
    4 * v + if k == 0 {
        0int
    } else if k == 1 {
        1
    } else if k == 2 {
        2
    } else if k == 3 {
        1
    } else if k == 4 {
        3
    } else {
        2
    }
}

/// The index buffer of a font model: two triangles per glyph quad, glyph
/// by glyph.
pub fn glyph_quad_indices() -> (r: Vec<u32>)
    ensures
        r@.len() == 6 * N_CHARS,
        forall|i: int| 0 <= i < r@.len() ==> #[trigger] r@[i] == quad_index(i / 6, i % 6),
{
    let mut indices: Vec<u32> = Vec::new();
    let mut vertex_num: u32 = 0;
    let mut row: usize = 0;
    while row < N_ROWS
        invariant
            row <= N_ROWS,
            vertex_num == row * N_COLS,
            indices@.len() == 6 * vertex_num,
            forall|i: int| 0 <= i < indices@.len() ==> #[trigger] indices@[i] == quad_index(i / 6, i % 6),
        decreases N_ROWS - row,
    {
        let mut col: usize = 0;
        while col < N_COLS
            invariant
                row < N_ROWS,
                col <= N_COLS,
                vertex_num == row * N_COLS + col,
                indices@.len() == 6 * vertex_num,
                forall|i: int| 0 <= i < indices@.len() ==> #[trigger] indices@[i] == quad_index(i / 6, i % 6),
            decreases N_COLS - col,
        {
            let base = 4 * vertex_num;
            let ghost start = indices@.len() as int;
            indices.push(base + 0);
            indices.push(base + 1);
            indices.push(base + 2);
            indices.push(base + 1);
            indices.push(base + 3);
            indices.push(base + 2);
            proof {
                assert forall|i: int| 0 <= i < indices@.len() implies #[trigger] indices@[i] == quad_index(
                    i / 6,
                    i % 6,
                ) by {
                    if i >= start {
                        assert(i / 6 == vertex_num && i % 6 == i - start);
                    }
                }
            }
            vertex_num = vertex_num + 1;
            col = col + 1;
        }
        row = row + 1;
    }
    indices
}

/// Where the kern between `left` and `right` sits in a font's kerning
/// table (left-major). Both must be characters the atlas holds.
pub fn kern_index(left: u32, right: u32) -> (r: usize)
    requires
        FIRST_CHAR <= left < END_CHAR,
        FIRST_CHAR <= right < END_CHAR,
    ensures
        r == (left - FIRST_CHAR) * N_CHARS + (right - FIRST_CHAR),
        r < N_CHARS * N_CHARS,
{
    ((left - FIRST_CHAR) as usize) * N_CHARS + (right - FIRST_CHAR) as usize
}

/// The first of the six indices that draw `letter`, or `None` for a
/// character the atlas does not hold (it is skipped).
pub fn glyph_index_start(letter: u32) -> (r: Option<usize>)
    ensures
        r == (if FIRST_CHAR <= letter < END_CHAR {
            Some((6 * (letter - FIRST_CHAR)) as usize)
        } else {
            None::<usize>
        }),
{
    if letter < FIRST_CHAR || letter >= END_CHAR {
        None
    } else {
        Some(6 * ((letter - FIRST_CHAR) as usize))
    }
}

/// The kerning table read as signed bytes, each widened by `spacing`.
/// Every widened kern must fit a signed byte.
pub fn spaced_kerns(kern_bytes: &[u8], spacing: i8) -> (r: Vec<i8>)
    requires
        forall|i: int|
            0 <= i < kern_bytes@.len() ==> i8::MIN <= (#[trigger] kern_bytes@[i] as i8) + spacing <= i8::MAX,
    ensures
        r@.len() == kern_bytes@.len(),
        forall|i: int| 0 <= i < r@.len() ==> #[trigger] r@[i] == (kern_bytes@[i] as i8) + spacing,
{
    let mut r: Vec<i8> = Vec::new();
    let mut i: usize = 0;
    while i < kern_bytes.len()
        invariant
            i <= kern_bytes@.len(),
            r@.len() == i,
            forall|j: int|
                0 <= j < kern_bytes@.len() ==> i8::MIN <= (#[trigger] kern_bytes@[j] as i8) + spacing <= i8::MAX,
            forall|j: int| 0 <= j < r@.len() ==> #[trigger] r@[j] == (kern_bytes@[j] as i8) + spacing,
        decreases kern_bytes@.len() - i,
    {
        let b = kern_bytes[i];
        let k: i8 = #[verifier::truncate] (b as i8);
        assert(i8::MIN <= (kern_bytes@[i as int] as i8) + spacing <= i8::MAX);
        r.push(k + spacing);
        i = i + 1;
    }
    r
}

/// Where the kern between characters `left` and `right` is read from in a
/// kerning table (left-major); it names an entry only for characters at or
/// after `FIRST_CHAR`.
pub open spec fn pair_index(left: char, right: char) -> int {
    (left as u32 - FIRST_CHAR) * N_CHARS + (right as u32 - FIRST_CHAR)
}

/// Whether every pair of neighbouring characters of `text` has its kern in
/// `kerns`.
pub open spec fn kerns_readable(kerns: Seq<i8>, text: Seq<char>) -> bool {
    forall|i: int|
        0 < i < text.len() ==> FIRST_CHAR <= text[i - 1] as u32 && FIRST_CHAR <= #[trigger] text[i] as u32
            && pair_index(text[i - 1], text[i]) < kerns.len()
}

/// The sum of the kerns between neighbouring characters of `text`.
pub open spec fn kern_sum(kerns: Seq<i8>, text: Seq<char>) -> int
    decreases text.len(),
{
    if text.len() < 2 {
        0
    } else {
        kern_sum(kerns, text.drop_last()) + kerns[pair_index(text[text.len() - 2], text[text.len() - 1])]
    }
}

/// Appending a character `c` to a non-empty text adds exactly one kern:
/// the table entry of the pair (last character, `c`), found at row
/// `last - 32` and column `c - 32` of the 96-wide table (left character
/// major). So a two-character text's kern is the one entry of its pair, and
/// a text of fewer than two characters has none.
pub proof fn lemma_kern_sum_appends(kerns: Seq<i8>, text: Seq<char>, c: char)
    ensures
        text.len() >= 1 ==> kern_sum(kerns, text.push(c)) == kern_sum(kerns, text) + kerns[(text.last() as u32
            - FIRST_CHAR) * N_CHARS + (c as u32 - FIRST_CHAR)],
        text.len() == 1 ==> kern_sum(kerns, text.push(c)) == kerns[(text[0] as u32 - FIRST_CHAR) * N_CHARS + (
        c as u32 - FIRST_CHAR)],
        text.len() < 2 ==> kern_sum(kerns, text) == 0,
{
    let next = text.push(c);
    assert(next.drop_last() =~= text);
    if text.len() >= 1 {
        assert(next[next.len() - 2] == text.last());
        assert(next[next.len() - 1] == c);
    }
}

/// How far the kerns move the end of a line of text: the sum, over each
/// pair of neighbouring characters, of the pair's kern in the table
/// `kerns` (in the units of the table). A line is as long as its
/// characters' cells plus this.
pub fn text_kern_sum(kerns: &[i8], text: &[char]) -> (r: i64)
    requires
        kerns_readable(kerns@, text@),
        text@.len() <= u32::MAX,
    ensures
        r == kern_sum(kerns@, text@),
        text@.len() < 2 ==> r == 0,
        text@.len() == 2 ==> r == kerns@[(text@[0] as u32 - FIRST_CHAR) * N_CHARS + (text@[1] as u32 - FIRST_CHAR)],
{
    proof {
        if text@.len() == 2 {
            lemma_kern_sum_appends(kerns@, text@.drop_last(), text@[1]);
            assert(text@.drop_last().push(text@[1]) =~= text@);
        }
    }
    let mut sum: i64 = 0;
    let mut i: usize = 1;
    if text.len() < 2 {
        return 0;
    }
    while i < text.len()
        invariant
            1 <= i <= text@.len(),
            text@.len() <= u32::MAX,
            kerns_readable(kerns@, text@),
            sum == kern_sum(kerns@, text@.subrange(0, i as int)),
            -128 * i <= sum <= 128 * i,
        decreases text@.len() - i,
    {
        let left = text[i - 1] as u32;
        let right = text[i] as u32;
        assert(FIRST_CHAR <= text@[i as int] as u32);
        assert(pair_index(text@[i - 1], text@[i as int]) < kerns@.len());
        let klen = kerns.len();
        assert((left - FIRST_CHAR) * N_CHARS + (right - FIRST_CHAR) < klen);
        let index = ((left - FIRST_CHAR) as usize) * N_CHARS + (right - FIRST_CHAR) as usize;
        proof {
            let next = text@.subrange(0, i + 1);
            assert(next.drop_last() =~= text@.subrange(0, i as int));
            assert(next[next.len() - 2] == text@[i - 1]);
            assert(next[next.len() - 1] == text@[i as int]);
        }
        sum = sum + kerns[index] as i64;
        i = i + 1;
    }
    assert(text@.subrange(0, text@.len() as int) =~= text@);
    sum
}

} // verus!
