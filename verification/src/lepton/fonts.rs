use vstd::prelude::*;

verus! {

/// Rows of glyphs in a font atlas.
pub const N_ROWS: usize = 8;

/// Columns of glyphs in a font atlas.
pub const N_COLS: usize = 12;

/// Glyphs in a font atlas: the printable ASCII characters 32 to 127.
pub const N_CHARS: usize = 96;

/// A rasterized glyph: its bitmap (`width * height` coverage bytes, row
/// by row, bottom row last) and the offset of its bottom-left corner from
/// the pen position.
pub struct GlyphRaster {
    pub width: usize,
    pub height: usize,
    pub xmin: i32,
    pub ymin: i32,
    pub bitmap: Vec<u8>,
}

/// The cell size, baseline and image size of an atlas.
#[derive(PartialEq, Eq, Structural, Copy, Clone, Debug)]
pub struct AtlasLayout {
    pub max_width: usize,
    pub max_height: usize,
    pub baseline: i32,
    pub image_width: usize,
    pub image_height: usize,
}

/// The widest of the first `n` glyphs' widths (0 for none).
pub open spec fn widest(gs: Seq<GlyphRaster>, n: nat) -> nat
    decreases n,
{
    if n == 0 {
        0
    } else {
        let w = widest(gs, (n - 1) as nat);
        if gs[n - 1].width > w { gs[n - 1].width as nat } else { w }
    }
}

/// The height of the tallest of the first `n` glyphs, and the baseline
/// (the negated bottom offset) of the first glyph of that height.
pub open spec fn tallest(gs: Seq<GlyphRaster>, n: nat) -> (nat, int)
    decreases n,
{
    if n == 0 {
        (0, 0)
    } else {
        let t = tallest(gs, (n - 1) as nat);
        if gs[n - 1].height > t.0 { (gs[n - 1].height as nat, -gs[n - 1].ymin) } else { t }
    }
}

/// The layout of the atlas of glyphs `gs`: cells as wide as the widest
/// glyph and as tall as the tallest, `N_COLS` by `N_ROWS` of them.
pub open spec fn spec_layout(gs: Seq<GlyphRaster>) -> AtlasLayout {
    let w = widest(gs, gs.len());
    let t = tallest(gs, gs.len());
    AtlasLayout {
        max_width: w as usize,
        max_height: t.0 as usize,
        baseline: t.1 as i32,
        image_width: (N_COLS * w) as usize,
        image_height: (N_ROWS * t.0) as usize,
    }
}

/// Whether the glyphs can be laid out: 96 of them, each bitmap at least
/// as long as its stated size, no bottom offset at `i32::MIN` (the
/// baseline negates it), and the image and offsets small enough that every
/// pixel coordinate is computed within `isize`.
pub open spec fn atlas_input_ok(gs: Seq<GlyphRaster>) -> bool {
    &&& gs.len() == N_CHARS
    &&& forall|g: int| 0 <= g < gs.len() ==> (#[trigger] gs[g]).bitmap@.len() >= gs[g].width * gs[g].height
    &&& forall|g: int| 0 <= g < gs.len() ==> i32::MIN < (#[trigger] gs[g]).ymin
    &&& forall|g: int| 0 <= g < gs.len() ==> 4 * abs((#[trigger] gs[g]).xmin as int) <= isize::MAX
    &&& forall|g: int| 0 <= g < gs.len() ==> 4 * abs((#[trigger] gs[g]).ymin as int) <= isize::MAX
    &&& 4 * (N_COLS * widest(gs, gs.len())) <= isize::MAX
    &&& 4 * (N_ROWS * tallest(gs, gs.len()).0) <= isize::MAX
    &&& 4 * ((N_COLS * widest(gs, gs.len())) * (N_ROWS * tallest(gs, gs.len()).0)) <= isize::MAX
}

pub open spec fn abs(x: int) -> int {
    if x < 0 { -x } else { x }
}

/// `v` brought into `[0, len)`.
pub open spec fn clamp_index(v: int, len: int) -> int {
    if v < 0 {
        0
    } else if v >= len {
        len - 1
    } else {
        v
    }
}

/// Where pixel (`x`, `fy`) of glyph `g` lands in the atlas, and its value:
/// glyph `g` sits in row `g / N_COLS` and column `g % N_COLS` (rows counted
/// from the top of the image), `fy` counts up from the glyph's bottom row,
/// and coordinates outside the image are moved to its border.
pub open spec fn pixel_write(gs: Seq<GlyphRaster>, l: AtlasLayout, g: int, x: int, fy: int) -> (int, u8) {
    let glyph = gs[g];
    let row = g / (N_COLS as int);
    let col = g % (N_COLS as int);
    let bx = clamp_index(col * l.max_width + x + glyph.xmin, l.image_width as int);
    let by = clamp_index(
        l.image_height - (row + 1) * l.max_height + fy + glyph.ymin + l.baseline,
        l.image_height as int,
    );
    (by * l.image_width + bx, glyph.bitmap@[glyph.width * (glyph.height - fy - 1) + x])
}

/// A glyph's offsets place it: in an atlas of layout `l`, a glyph whose
/// bottom offset (`ymin`) is one lower than another's, all else equal, has
/// each of its pixels written exactly one image row lower (one row width
/// earlier in the image), with the same value, wherever the other's pixel
/// is not on the image's first or last row.
pub proof fn lemma_ymin_lowers_one_row(
    gs: Seq<GlyphRaster>,
    lowered: Seq<GlyphRaster>,
    l: AtlasLayout,
    g: int,
    x: int,
    fy: int,
)
    requires
        0 <= g < gs.len(),
        lowered.len() == gs.len(),
        lowered[g].width == gs[g].width,
        lowered[g].height == gs[g].height,
        lowered[g].xmin == gs[g].xmin,
        lowered[g].bitmap@ == gs[g].bitmap@,
        lowered[g].ymin == gs[g].ymin - 1,
        l.image_width > 0,
        l.image_width <= pixel_write(gs, l, g, x, fy).0 < (l.image_height - 1) * l.image_width,
    ensures
        pixel_write(lowered, l, g, x, fy).0 == pixel_write(gs, l, g, x, fy).0 - l.image_width,
        pixel_write(lowered, l, g, x, fy).1 == pixel_write(gs, l, g, x, fy).1,
{
    let iw = l.image_width as int;
    let ih = l.image_height as int;
    let row = g / (N_COLS as int);
    let col = g % (N_COLS as int);
    let bx = clamp_index(col * l.max_width + x + gs[g].xmin, iw);
    let raw = ih - (row + 1) * l.max_height + fy + gs[g].ymin + l.baseline;
    let by = clamp_index(raw, ih);
    let p = by * iw + bx;
    assert(pixel_write(gs, l, g, x, fy).0 == p);
    assert(0 <= bx < iw);
    assert(by >= 1) by (nonlinear_arith)
        requires
            p == by * iw + bx,
            0 <= bx < iw,
            iw <= p,
            by >= 0,
    ;
    assert(by < ih - 1) by (nonlinear_arith)
        requires
            p == by * iw + bx,
            0 <= bx,
            p < (ih - 1) * iw,
            iw > 0,
    ;
    assert(raw == by);
    assert(clamp_index(raw - 1, ih) == by - 1);
    assert((by - 1) * iw + bx == p - iw) by (nonlinear_arith)
        requires
            p == by * iw + bx,
    ;
}

/// Likewise across: a glyph whose left offset (`xmin`) is one lower, all
/// else equal, has each of its pixels written exactly one column to the
/// left, with the same value, wherever the other's pixel is not in the
/// image's first or last column.
pub proof fn lemma_xmin_shifts_one_column(
    gs: Seq<GlyphRaster>,
    shifted: Seq<GlyphRaster>,
    l: AtlasLayout,
    g: int,
    x: int,
    fy: int,
)
    requires
        0 <= g < gs.len(),
        shifted.len() == gs.len(),
        shifted[g].width == gs[g].width,
        shifted[g].height == gs[g].height,
        shifted[g].ymin == gs[g].ymin,
        shifted[g].bitmap@ == gs[g].bitmap@,
        shifted[g].xmin == gs[g].xmin - 1,
        l.image_width > 0,
        0 < pixel_write(gs, l, g, x, fy).0 % (l.image_width as int) < l.image_width - 1,
    ensures
        pixel_write(shifted, l, g, x, fy).0 == pixel_write(gs, l, g, x, fy).0 - 1,
        pixel_write(shifted, l, g, x, fy).1 == pixel_write(gs, l, g, x, fy).1,
{
    let iw = l.image_width as int;
    let ih = l.image_height as int;
    let row = g / (N_COLS as int);
    let col = g % (N_COLS as int);
    let raw = col * l.max_width + x + gs[g].xmin;
    let bx = clamp_index(raw, iw);
    let by = clamp_index(ih - (row + 1) * l.max_height + fy + gs[g].ymin + l.baseline, ih);
    let p = by * iw + bx;
    assert(pixel_write(gs, l, g, x, fy).0 == p);
    assert(0 <= bx < iw);
    vstd::arithmetic::div_mod::lemma_fundamental_div_mod_converse(p, iw, by, bx);
    assert(p % iw == bx);
    assert(raw == bx);
    assert(clamp_index(raw - 1, iw) == bx - 1);
}

/// The pixel writes of glyph `g`, column by column, bottom to top within a
/// column.
pub open spec fn glyph_writes(gs: Seq<GlyphRaster>, l: AtlasLayout, g: int) -> Seq<(int, u8)> {
    let h = gs[g].height as int;
    Seq::new((gs[g].width * gs[g].height) as nat, |k: int| pixel_write(gs, l, g, k / h, k % h))
}

/// The pixel writes of the first `n` glyphs, glyph by glyph.
pub open spec fn atlas_writes(gs: Seq<GlyphRaster>, l: AtlasLayout, n: nat) -> Seq<(int, u8)>
    decreases n,
{
    if n == 0 {
        Seq::empty()
    } else {
        atlas_writes(gs, l, (n - 1) as nat) + glyph_writes(gs, l, n - 1)
    }
}

/// `buf` after the writes `ws`, in order; a later write to a pixel wins.
pub open spec fn apply_writes(buf: Seq<u8>, ws: Seq<(int, u8)>) -> Seq<u8>
    decreases ws.len(),
{
    if ws.len() == 0 {
        buf
    } else {
        let before = apply_writes(buf, ws.drop_last());
        let w = ws.last();
        if 0 <= w.0 < before.len() { before.update(w.0, w.1) } else { before }
    }
}

/// The atlas image of glyphs `gs`: a black image of the layout's size with
/// every glyph's pixels written in.
pub open spec fn spec_atlas(gs: Seq<GlyphRaster>) -> Seq<u8> {
    let l = spec_layout(gs);
    apply_writes(
        Seq::new((l.image_width * l.image_height) as nat, |i: int| 0u8),
        atlas_writes(gs, l, gs.len()),
    )
}

proof fn lemma_apply_len(buf: Seq<u8>, ws: Seq<(int, u8)>)
    ensures
        apply_writes(buf, ws).len() == buf.len(),
    decreases ws.len(),
{
    if ws.len() > 0 {
        lemma_apply_len(buf, ws.drop_last());
    }
}

proof fn lemma_apply_push(buf: Seq<u8>, ws: Seq<(int, u8)>, w: (int, u8))
    ensures
        apply_writes(buf, ws.push(w)) == (if 0 <= w.0 < buf.len() {
            apply_writes(buf, ws).update(w.0, w.1)
        } else {
            apply_writes(buf, ws)
        }),
{
    assert(ws.push(w).drop_last() =~= ws);
    lemma_apply_len(buf, ws);
}

proof fn lemma_widest(gs: Seq<GlyphRaster>, n: nat)
    requires
        n <= gs.len(),
    ensures
        forall|g: int| 0 <= g < n ==> gs[g].width <= widest(gs, n),
    decreases n,
{
    if n > 0 {
        lemma_widest(gs, (n - 1) as nat);
    }
}

proof fn lemma_tallest(gs: Seq<GlyphRaster>, n: nat)
    requires
        n <= gs.len(),
    ensures
        forall|g: int| 0 <= g < n ==> gs[g].height <= tallest(gs, n).0,
        tallest(gs, n).1 == 0 || exists|g: int| 0 <= g < n && tallest(gs, n).1 == -gs[g].ymin,
    decreases n,
{
    if n > 0 {
        lemma_tallest(gs, (n - 1) as nat);
    }
}

/// Whether one glyph fits the atlas: its bitmap at least as long as its
/// stated size, its bottom offset not `i32::MIN`, and its offsets small
/// enough for pixel coordinates.
pub open spec fn glyph_fits(g: GlyphRaster) -> bool {
    &&& g.bitmap@.len() >= g.width * g.height
    &&& i32::MIN < g.ymin
    &&& 4 * abs(g.xmin as int) <= isize::MAX
    &&& 4 * abs(g.ymin as int) <= isize::MAX
}

/// `|x|`, widened so that it never overflows.
fn abs_wide(x: i32) -> (r: u128)
    ensures
        r as int == abs(x as int),
{
    if x < 0 {
        (-(x as i64)) as u128
    } else {
        x as u128
    }
}

/// Whether `glyphs` meet what `atlas_layout` and `build_atlas` ask of
/// them (`atlas_input_ok`), tested without overflow.
pub fn atlas_fits(glyphs: &Vec<GlyphRaster>) -> (r: bool)
    ensures
        r == atlas_input_ok(glyphs@),
{
    if glyphs.len() != N_CHARS {
        return false;
    }
    let limit: u128 = isize::MAX as u128;
    let mut max_width: usize = 0;
    let mut max_height: usize = 0;
    let mut i: usize = 0;
    while i < glyphs.len()
        invariant
            i <= glyphs@.len(),
            limit == isize::MAX,
            max_width == widest(glyphs@, i as nat),
            max_height == tallest(glyphs@, i as nat).0,
            forall|j: int| 0 <= j < i ==> glyph_fits(#[trigger] glyphs@[j]),
        decreases glyphs@.len() - i,
    {
        let g = &glyphs[i];
        assert((g.width as u128) * (g.height as u128) <= u128::MAX) by (nonlinear_arith)
            requires
                g.width <= usize::MAX,
                g.height <= usize::MAX,
                usize::MAX < 0x1_0000_0000_0000_0000,
        ;
        let area: u128 = (g.width as u128) * (g.height as u128);
        if !((g.bitmap.len() as u128) >= area && g.ymin != i32::MIN && 4 * abs_wide(g.xmin) <= limit
            && 4 * abs_wide(g.ymin) <= limit) {
            assert(!glyph_fits(glyphs@[i as int]));
            return false;
        }
        if g.width > max_width {
            max_width = g.width;
        }
        if g.height > max_height {
            max_height = g.height;
        }
        i = i + 1;
    }
    let image_width: u128 = (N_COLS as u128) * (max_width as u128);
    let image_height: u128 = (N_ROWS as u128) * (max_height as u128);
    if !(4 * image_width <= limit && 4 * image_height <= limit) {
        return false;
    }
    assert(image_width * image_height <= 0x0400_0000_0000_0000_0000_0000_0000_0000) by (nonlinear_arith)
        requires
            4 * image_width <= limit,
            4 * image_height <= limit,
            limit <= 0x8000_0000_0000_0000,
    ;
    let fits = 4 * (image_width * image_height) <= limit;
    proof {
        assert(forall|g: int| 0 <= g < glyphs@.len() ==> glyph_fits(#[trigger] glyphs@[g]));
    }
    fits
}

/// The cell size, baseline and image size of the atlas of `glyphs`.
pub fn atlas_layout(glyphs: &Vec<GlyphRaster>) -> (r: AtlasLayout)
    requires
        atlas_input_ok(glyphs@),
    ensures
        r == spec_layout(glyphs@),
{
    let mut max_width: usize = 0;
    let mut max_height: usize = 0;
    let mut baseline: i32 = 0;
    let mut i: usize = 0;
    proof {
        lemma_widest(glyphs@, glyphs@.len());
        lemma_tallest(glyphs@, glyphs@.len());
    }
    while i < glyphs.len()
        invariant
            i <= glyphs@.len(),
            atlas_input_ok(glyphs@),
            max_width == widest(glyphs@, i as nat),
            max_height == tallest(glyphs@, i as nat).0,
            baseline == tallest(glyphs@, i as nat).1,
        decreases glyphs@.len() - i,
    {
        proof {
            lemma_tallest(glyphs@, (i + 1) as nat);
            lemma_widest(glyphs@, (i + 1) as nat);
        }
        let g = &glyphs[i];
        if g.width > max_width {
            max_width = g.width;
        }
        if g.height > max_height {
            max_height = g.height;
            baseline = -g.ymin;
        }
        i = i + 1;
    }
    let image_width = N_COLS * max_width;
    let image_height = N_ROWS * max_height;
    AtlasLayout { max_width, max_height, baseline, image_width, image_height }
}

proof fn lemma_writes_step(
    gs: Seq<GlyphRaster>,
    l: AtlasLayout,
    g: int,
    x: int,
    fy: int,
)
    requires
        0 <= g < gs.len(),
        0 <= x < gs[g].width,
        0 <= fy < gs[g].height,
    ensures
        glyph_writes(gs, l, g).take(x * gs[g].height + fy + 1) == glyph_writes(gs, l, g).take(
            x * gs[g].height + fy,
        ).push(pixel_write(gs, l, g, x, fy)),
        x * gs[g].height + fy + 1 <= gs[g].width * gs[g].height,
{
    let h = gs[g].height as int;
    let w = gs[g].width as int;
    let k = x * h + fy;
    assert(k + 1 <= w * h) by (nonlinear_arith)
        requires
            k == x * h + fy,
            0 <= x < w,
            0 <= fy < h,
    {
        assert(x * h + h <= w * h) by (nonlinear_arith)
            requires
                x + 1 <= w,
                0 < h,
        ;
    }
    vstd::arithmetic::div_mod::lemma_fundamental_div_mod_converse(k, h, x, fy);
    let gw = glyph_writes(gs, l, g);
    assert(gw[k] == pixel_write(gs, l, g, x, fy));
    assert(gw.take(k + 1) =~= gw.take(k).push(gw[k]));
}

/// Lays out the atlas of `glyphs` and draws it: the image, `image_width`
/// bytes per row and `image_height` rows, top row first.
pub fn build_atlas(glyphs: &Vec<GlyphRaster>) -> (r: (AtlasLayout, Vec<u8>))
    requires
        atlas_input_ok(glyphs@),
    ensures
        r.0 == spec_layout(glyphs@),
        r.1@ == spec_atlas(glyphs@),
{
    let l = atlas_layout(glyphs);
    let ghost gs = glyphs@;
    proof {
        lemma_widest(gs, gs.len());
        lemma_tallest(gs, gs.len());
        assert(0 <= l.image_width * l.image_height) by (nonlinear_arith);
    }
    let size = l.image_width * l.image_height;
    let mut buffer: Vec<u8> = Vec::new();
    let mut i: usize = 0;
    while i < size
        invariant
            i <= size,
            buffer@ == Seq::new(i as nat, |k: int| 0u8),
        decreases size - i,
    {
        buffer.push(0u8);
        i = i + 1;
        assert(buffer@ =~= Seq::new(i as nat, |k: int| 0u8));
    }
    let ghost zeros = buffer@;
    assert(zeros == Seq::new((l.image_width * l.image_height) as nat, |k: int| 0u8));
    let mut g: usize = 0;
    while g < N_CHARS
        invariant
            g <= N_CHARS,
            atlas_input_ok(gs),
            gs == glyphs@,
            l == spec_layout(gs),
            size == l.image_width * l.image_height,
            forall|k: int| 0 <= k < gs.len() ==> gs[k].width <= l.max_width,
            forall|k: int| 0 <= k < gs.len() ==> gs[k].height <= l.max_height,
            l.baseline == 0 || exists|k: int| 0 <= k < gs.len() && l.baseline == -gs[k].ymin,
            zeros.len() == size,
            buffer@ == apply_writes(zeros, atlas_writes(gs, l, g as nat)),
        decreases N_CHARS - g,
    {
        let row = g / N_COLS;
        let col = g % N_COLS;
        let glyph = &glyphs[g];
        let ghost gw = glyph_writes(gs, l, g as int);
        let ghost before = atlas_writes(gs, l, g as nat);
        assert(gw.take(0) =~= Seq::<(int, u8)>::empty());
        assert(before + gw.take(0) =~= before);
        let mut x: usize = 0;
        while x < glyph.width
            invariant
                g < N_CHARS,
                row == g / N_COLS,
                col == g % N_COLS,
                x <= glyph.width,
                atlas_input_ok(gs),
                gs == glyphs@,
                *glyph == gs[g as int],
                l == spec_layout(gs),
                size == l.image_width * l.image_height,
                forall|k: int| 0 <= k < gs.len() ==> gs[k].width <= l.max_width,
                forall|k: int| 0 <= k < gs.len() ==> gs[k].height <= l.max_height,
                l.baseline == 0 || exists|k: int| 0 <= k < gs.len() && l.baseline == -gs[k].ymin,
                zeros.len() == size,
                gw == glyph_writes(gs, l, g as int),
                before == atlas_writes(gs, l, g as nat),
                buffer@ == apply_writes(zeros, before + gw.take(x * glyph.height)),
            decreases glyph.width - x,
        {
            let mut fy: usize = 0;
            while fy < glyph.height
                invariant
                    g < N_CHARS,
                    row == g / N_COLS,
                    col == g % N_COLS,
                    x < glyph.width,
                    fy <= glyph.height,
                    atlas_input_ok(gs),
                    gs == glyphs@,
                    *glyph == gs[g as int],
                    l == spec_layout(gs),
                    size == l.image_width * l.image_height,
                    forall|k: int| 0 <= k < gs.len() ==> gs[k].width <= l.max_width,
                    forall|k: int| 0 <= k < gs.len() ==> gs[k].height <= l.max_height,
                    l.baseline == 0 || exists|k: int| 0 <= k < gs.len() && l.baseline == -gs[k].ymin,
                    zeros.len() == size,
                    gw == glyph_writes(gs, l, g as int),
                    before == atlas_writes(gs, l, g as nat),
                    buffer@ == apply_writes(zeros, before + gw.take(x * glyph.height + fy)),
                decreases glyph.height - fy,
            {
                let ghost k = x * glyph.height + fy;
                proof {
                    lemma_writes_step(gs, l, g as int, x as int, fy as int);
                    assert(gs[g as int].width <= l.max_width);
                    assert(gs[g as int].height <= l.max_height);
                    assert(col * l.max_width + x < l.image_width) by (nonlinear_arith)
                        requires
                            col < 12,
                            x < l.max_width,
                            l.image_width == 12 * l.max_width,
                    ;
                    assert((row + 1) * l.max_height <= l.image_height) by (nonlinear_arith)
                        requires
                            row < 8,
                            l.image_height == 8 * l.max_height,
                    ;
                    assert(4 * abs(glyph.xmin as int) <= isize::MAX);
                    assert(4 * abs(glyph.ymin as int) <= isize::MAX);
                    if l.baseline != 0 {
                        let kb = choose|kb: int| 0 <= kb < gs.len() && l.baseline == -gs[kb].ymin;
                        assert(4 * abs(gs[kb].ymin as int) <= isize::MAX);
                    }
                    assert(l.image_width <= l.image_width * l.image_height) by (nonlinear_arith)
                        requires
                            l.image_height >= 1,
                    ;
                    assert(l.image_height <= l.image_width * l.image_height) by (nonlinear_arith)
                        requires
                            l.image_width >= 1,
                    ;
                }
                let bx_raw: isize = (col * l.max_width) as isize + (x as isize + glyph.xmin as isize);
                let bx0: usize = if bx_raw < 0 { 0 } else { bx_raw as usize };
                let bx: usize = if bx0 >= l.image_width { l.image_width - 1 } else { bx0 };
                let by_raw: isize = (l.image_height - (row + 1) * l.max_height) as isize + (fy as isize
                    + glyph.ymin as isize + l.baseline as isize);
                let by0: usize = if by_raw < 0 { 0 } else { by_raw as usize };
                let by: usize = if by0 >= l.image_height { l.image_height - 1 } else { by0 };
                proof {
                    assert(by * l.image_width + bx < l.image_width * l.image_height) by (nonlinear_arith)
                        requires
                            by < l.image_height,
                            bx < l.image_width,
                    ;
                    assert(glyph.width * (glyph.height - fy - 1) + x < glyph.width * glyph.height)
                        by (nonlinear_arith)
                        requires
                            fy < glyph.height,
                            x < glyph.width,
                    ;
                    assert(0 <= glyph.width * (glyph.height - fy - 1)) by (nonlinear_arith)
                        requires
                            fy < glyph.height,
                    ;
                }
                let blen = glyph.bitmap.len();
                assert(blen >= glyph.width * glyph.height);
                let bitmap_index = glyph.width * (glyph.height - fy - 1) + x;
                let pos = by * l.image_width + bx;
                let value = glyph.bitmap[bitmap_index];
                proof {
                    assert(pixel_write(gs, l, g as int, x as int, fy as int) == (pos as int, value));
                    assert(before + gw.take(k + 1) =~= (before + gw.take(k)).push((pos as int, value)));
                    lemma_apply_push(zeros, before + gw.take(k), (pos as int, value));
                    lemma_apply_len(zeros, before + gw.take(k));
                }
                buffer.set(pos, value);
                fy = fy + 1;
            }
            proof {
                assert((x + 1) * glyph.height == x * glyph.height + glyph.height) by (nonlinear_arith);
            }
            x = x + 1;
        }
        proof {
            assert(gw.take(glyph.width * glyph.height) =~= gw);
            assert(atlas_writes(gs, l, (g + 1) as nat) == before + gw);
        }
        g = g + 1;
    }
    proof {
        assert(gs.len() == N_CHARS);
    }
    (l, buffer)
}

/// The room glyph `g` leaves in a cell `max_width` wide, each width read
/// as an `i32`.
pub open spec fn cell_room(gs: Seq<GlyphRaster>, max_width: usize, g: int) -> int {
    (max_width as i32) - (gs[g].width as i32)
}

/// The stored kern between glyphs `i / N_CHARS` (left) and `i % N_CHARS`
/// (right): the font's kern less the room the left glyph leaves in its cell.
pub open spec fn kern_value(gs: Seq<GlyphRaster>, max_width: usize, raw_kerns: Seq<i32>, i: int) -> int {
    raw_kerns[i] - cell_room(gs, max_width, i / (N_CHARS as int))
}

/// Whether a kern fits a signed byte.
pub open spec fn fits_i8(k: int) -> bool {
    i8::MIN <= k <= i8::MAX
}

/// Builds the kerning table: for each pair of glyphs (left-major), the
/// font's kern in pixels (`raw_kerns`, 0 where the font has none) less the
/// room the left glyph leaves in its `max_width` cell (widths read as
/// `i32`). The first kern (in table order) that does not fit a signed byte
/// is returned as an error.
pub fn kern_table(glyphs: &Vec<GlyphRaster>, max_width: usize, raw_kerns: &[i32]) -> (r: Result<Vec<i8>, i32>)
    requires
        glyphs@.len() == N_CHARS,
        raw_kerns@.len() == N_CHARS * N_CHARS,
        forall|g: int| 0 <= g < N_CHARS ==> i32::MIN <= #[trigger] cell_room(glyphs@, max_width, g) <= i32::MAX,
        forall|i: int|
            0 <= i < N_CHARS * N_CHARS ==> i32::MIN <= #[trigger] kern_value(glyphs@, max_width, raw_kerns@, i)
                <= i32::MAX,
    ensures
        match r {
            Ok(table) => table@.len() == N_CHARS * N_CHARS && forall|i: int|
                0 <= i < N_CHARS * N_CHARS ==> fits_i8(kern_value(glyphs@, max_width, raw_kerns@, i))
                    && #[trigger] table@[i] == kern_value(glyphs@, max_width, raw_kerns@, i),
            Err(k) => exists|i: int|
                0 <= i < N_CHARS * N_CHARS && k == kern_value(glyphs@, max_width, raw_kerns@, i)
                    && !fits_i8(k as int) && forall|j: int|
                    0 <= j < i ==> fits_i8(#[trigger] kern_value(glyphs@, max_width, raw_kerns@, j)),
        },
{
    let mut table: Vec<i8> = Vec::new();
    let mut left: usize = 0;
    while left < N_CHARS
        invariant
            left <= N_CHARS,
            glyphs@.len() == N_CHARS,
            raw_kerns@.len() == N_CHARS * N_CHARS,
            forall|g: int| 0 <= g < N_CHARS ==> i32::MIN <= #[trigger] cell_room(glyphs@, max_width, g) <= i32::MAX,
            forall|i: int|
                0 <= i < N_CHARS * N_CHARS ==> i32::MIN <= #[trigger] kern_value(glyphs@, max_width, raw_kerns@, i)
                    <= i32::MAX,
            table@.len() == left * N_CHARS,
            forall|i: int|
                0 <= i < table@.len() ==> #[trigger] table@[i] == kern_value(glyphs@, max_width, raw_kerns@, i),
        decreases N_CHARS - left,
    {
        let width = glyphs[left].width;
        assert(i32::MIN <= cell_room(glyphs@, max_width, left as int) <= i32::MAX);
        let delta_width: i32 = (#[verifier::truncate] (max_width as i32)) - (#[verifier::truncate] (width as i32));
        let mut right: usize = 0;
        while right < N_CHARS
            invariant
                left < N_CHARS,
                right <= N_CHARS,
                glyphs@.len() == N_CHARS,
                raw_kerns@.len() == N_CHARS * N_CHARS,
                width == glyphs@[left as int].width,
                delta_width == cell_room(glyphs@, max_width, left as int),
                forall|i: int|
                    0 <= i < N_CHARS * N_CHARS ==> i32::MIN <= #[trigger] kern_value(glyphs@, max_width, raw_kerns@, i)
                        <= i32::MAX,
                table@.len() == left * N_CHARS + right,
                forall|i: int|
                    0 <= i < table@.len() ==> #[trigger] table@[i] == kern_value(glyphs@, max_width, raw_kerns@, i),
            decreases N_CHARS - right,
        {
            let index = left * N_CHARS + right;
            proof {
                vstd::arithmetic::div_mod::lemma_fundamental_div_mod_converse(
                    index as int,
                    N_CHARS as int,
                    left as int,
                    right as int,
                );
                assert(kern_value(glyphs@, max_width, raw_kerns@, index as int) == raw_kerns@[index as int]
                    - delta_width);
            }
            let kern = raw_kerns[index] - delta_width;
            if kern < -128 || kern > 127 {
                proof {
                    assert forall|j: int| 0 <= j < index implies fits_i8(
                        #[trigger] kern_value(glyphs@, max_width, raw_kerns@, j),
                    ) by {
                        assert(table@[j] == kern_value(glyphs@, max_width, raw_kerns@, j));
                    }
                    assert(kern == kern_value(glyphs@, max_width, raw_kerns@, index as int));
                }
                return Err(kern);
            }
            let ghost old_table = table@;
            table.push(kern as i8);
            proof {
                assert(table@[index as int] == kern_value(glyphs@, max_width, raw_kerns@, index as int));
                assert forall|i: int| 0 <= i < table@.len() implies #[trigger] table@[i] == kern_value(
                    glyphs@,
                    max_width,
                    raw_kerns@,
                    i,
                ) by {
                    if i < old_table.len() {
                        assert(table@[i] == old_table[i]);
                    }
                }
            }
            right = right + 1;
        }
        left = left + 1;
    }
    proof {
        assert forall|i: int| 0 <= i < N_CHARS * N_CHARS implies fits_i8(
            kern_value(glyphs@, max_width, raw_kerns@, i),
        ) by {
            let v: i8 = table@[i];
            assert(v == kern_value(glyphs@, max_width, raw_kerns@, i));
        }
    }
    Ok(table)
}

} // verus!
