use vstd::prelude::*;

verus! {

/// Sector of the angle `atan2(gy, gx) + 180°`, that is of the direction of
/// `(-gx, -gy)`, in 45° steps: sector `k` holds the directions in
/// `[45k°, 45(k + 1)°)`. Each case is that half-open cone written as signs
/// and comparisons. The zero vector, for which `atan2` gives 0, falls in
/// sector 4.
pub open spec fn sector_of(gx: int, gy: int) -> int {
    if gx == 0 && gy == 0 {
        4
    } else if gy <= 0 && gy > gx {
        0
    } else if gx < 0 && gy < 0 && gy <= gx {
        1
    } else if gx >= 0 && gy < 0 && gx + gy < 0 {
        2
    } else if gx > 0 && gy < 0 && gx + gy >= 0 {
        3
    } else if gx > 0 && gy >= 0 && gy < gx {
        4
    } else if gx > 0 && gy > 0 && gy >= gx {
        5
    } else if gx <= 0 && gy > 0 && gx + gy > 0 {
        6
    } else {
        7
    }
}

/// Glyph of a sector. Sector 8 (a full turn) shares the glyph of sector 0;
/// any other value gets the fallback glyph.
pub open spec fn glyph_of(s: int) -> char {
    if s == 0 || s == 8 {
        '→'
    } else if s == 1 {
        '↘'
    } else if s == 2 {
        '↓'
    } else if s == 3 {
        '↙'
    } else if s == 4 {
        '←'
    } else if s == 5 {
        '↖'
    } else if s == 6 {
        '↑'
    } else if s == 7 {
        '↗'
    } else {
        '💩'
    }
}

/// Glyph shown for a pooled gradient.
pub open spec fn cell_glyph_of(c: (i64, i64)) -> char {
    glyph_of(sector_of(c.0 as int, c.1 as int))
}

/// The rendered grid: `h / 8` lines of `w / 8` glyphs, each line ended by a
/// newline; line `y` shows the cells `y * (w / 8)` up to `y * (w / 8) + w / 8 - 1`.
pub open spec fn rendered(cells: Seq<(i64, i64)>, w: int, h: int) -> Seq<char> {
    let cols = w / 8;
    let rows = h / 8;
    Seq::new(
        (rows * (cols + 1)) as nat,
        |i: int|
            if i % (cols + 1) == cols {
                '\n'
            } else {
                cell_glyph_of(cells[(i / (cols + 1)) * cols + i % (cols + 1)])
            },
    )
}

/// The sectors cover every direction: outside the first seven cases the
/// vector points into the last cone.
pub proof fn lemma_sector_last_cone(gx: int, gy: int)
    requires
        sector_of(gx, gy) == 7,
    ensures
        gx < 0 && gy > 0 && gx + gy <= 0,
{
}

/// The sector depends on the direction alone: scaling a vector by a
/// positive factor keeps its sector.
pub proof fn lemma_sector_scale_invariant(gx: int, gy: int, c: int)
    requires
        c > 0,
    ensures
        sector_of(c * gx, c * gy) == sector_of(gx, gy),
{
    assert((c * gx == 0) == (gx == 0) && (c * gy == 0) == (gy == 0)) by (nonlinear_arith)
        requires c > 0;
    assert((c * gx < 0) == (gx < 0) && (c * gx > 0) == (gx > 0)) by (nonlinear_arith)
        requires c > 0;
    assert((c * gy < 0) == (gy < 0) && (c * gy > 0) == (gy > 0)) by (nonlinear_arith)
        requires c > 0;
    assert((c * gy > c * gx) == (gy > gx) && (c * gy < c * gx) == (gy < gx)) by (nonlinear_arith)
        requires c > 0;
    assert((c * gx + c * gy < 0) == (gx + gy < 0) && (c * gx + c * gy > 0) == (gx + gy > 0)) by (nonlinear_arith)
        requires c > 0;
}

/// Turning a non-zero vector by a quarter turn moves it two sectors on,
/// and reversing it moves it four sectors on.
pub proof fn lemma_sector_rotation(gx: int, gy: int)
    requires
        gx != 0 || gy != 0,
    ensures
        sector_of(-gy, gx) == (sector_of(gx, gy) + 2) % 8,
        sector_of(-gx, -gy) == (sector_of(gx, gy) + 4) % 8,
{
}

/// Sector of the direction of a pooled gradient.
pub fn sector(gx: i64, gy: i64) -> (r: u8)
    ensures
        r as int == sector_of(gx as int, gy as int),
        r < 8,
{
    if gx == 0 && gy == 0 {
        4
    } else if gy <= 0 && gy > gx {
        0
    } else if gx < 0 && gy < 0 && gy <= gx {
        1
    } else if gx >= 0 && gy < 0 && gx + gy < 0 {
        2
    } else if gx > 0 && gy < 0 && gx + gy >= 0 {
        3
    } else if gx > 0 && gy >= 0 && gy < gx {
        4
    } else if gx > 0 && gy > 0 && gy >= gx {
        5
    } else if gx <= 0 && gy > 0 && gx + gy > 0 {
        6
    } else {
        7
    }
}

/// Glyph of a sector number.
pub fn glyph_for_sector(s: u8) -> (r: char)
    ensures
        r == glyph_of(s as int),
{
    match s {
        0 => '→',
        1 => '↘',
        2 => '↓',
        3 => '↙',
        4 => '←',
        5 => '↖',
        6 => '↑',
        7 => '↗',
        8 => '→',
        _ => '💩',
    }
}

/// Glyph shown for a pooled gradient `(gx, gy)`.
pub fn cell_glyph(gx: i64, gy: i64) -> (r: char)
    ensures
        r == cell_glyph_of((gx, gy)),
{
    glyph_for_sector(sector(gx, gy))
}

/// Renders the visible cells of a `w` by `h` image: `h / 8` lines of
/// `w / 8` glyphs, each followed by a newline. Partial cells along the right
/// and bottom edges are not shown.
pub fn render_grad(cells: &Vec<(i64, i64)>, w: u32, h: u32) -> (r: Vec<char>)
    requires
        cells@.len() >= (w / 8) as int * (h / 8) as int,
    ensures
        r@ == rendered(cells@, w as int, h as int),
{
    assert(cells@.len() == cells.len());
    let cols = (w / 8) as usize;
    let rows = (h / 8) as usize;
    let ghost width = cols + 1;
    let mut out: Vec<char> = Vec::new();
    let mut y: usize = 0;
    while y < rows
        invariant
            cols == w / 8,
            rows == h / 8,
            width == cols + 1,
            cells@.len() >= cols * rows,
            cells@.len() <= usize::MAX,
            y <= rows,
            out@.len() == y * width,
            forall|i: int| 0 <= i < out@.len() ==> (#[trigger] out@[i]) == rendered(cells@, w as int, h as int)[i],
        decreases rows - y,
    {
        let mut x: usize = 0;
        while x <= cols
            invariant
                cols == w / 8,
                rows == h / 8,
                width == cols + 1,
                cells@.len() >= cols * rows,
                cells@.len() <= usize::MAX,
            cells@.len() <= usize::MAX,
                y < rows,
                x <= cols + 1,
                out@.len() == y * width + x,
                forall|i: int| 0 <= i < out@.len() ==> (#[trigger] out@[i]) == rendered(cells@, w as int, h as int)[i],
            decreases cols + 1 - x,
        {
            let ghost at = y * width + x;
            proof {
                assert(at < rows * width) by (nonlinear_arith)
                    requires at == y * width + x, x < width, y < rows;
                vstd::arithmetic::div_mod::lemma_fundamental_div_mod_converse(at, width, y as int, x as int);
            }
            if x == cols {
                out.push('\n');
            } else {
                proof {
                    assert(y * cols + x < cols * rows) by (nonlinear_arith)
                        requires x < cols, y < rows;
                }
                let c = cells[y * cols + x];
                out.push(cell_glyph(c.0, c.1));
            }
            x = x + 1;
        }
        proof {
            assert(y * width + width == (y + 1) * width) by (nonlinear_arith);
        }
        y = y + 1;
    }
    proof {
        assert(rows * width == (h / 8) as int * ((w / 8) as int + 1));
        assert(out@ =~= rendered(cells@, w as int, h as int));
    }
    out
}

} // verus!
