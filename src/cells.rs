use vstd::prelude::*;
use crate::raster::clamp;

verus! {

/// Pixel gradient at `(x, y)`, both coordinates clamped into the `w` by `h` field.
pub open spec fn sample(g: Seq<(i32, i32)>, w: int, h: int, x: int, y: int) -> (i32, i32) {
    g[clamp(y, h - 1) * w + clamp(x, w - 1)]
}

/// Sum of the first `n` samples of the 8x8 window anchored at `(ax, ay)`.
/// Sample `k` lies at offset `(k % 8 - 4, k / 8 - 4)` from the anchor.
pub open spec fn window_sum(g: Seq<(i32, i32)>, w: int, h: int, ax: int, ay: int, n: nat) -> (int, int)
    decreases n,
{
    if n == 0 {
        (0, 0)
    } else {
        let s = window_sum(g, w, h, ax, ay, (n - 1) as nat);
        let t = sample(g, w, h, ax + (n - 1) % 8 - 4, ay + (n - 1) / 8 - 4);
        (s.0 + t.0, s.1 + t.1)
    }
}

/// Pooled gradient of the cell anchored at `(ax, ay)`: the sum over the
/// window `[ax - 4, ax + 3] x [ay - 4, ay + 3]`, with edge replication.
pub open spec fn cell_sum(g: Seq<(i32, i32)>, w: int, h: int, ax: int, ay: int) -> (int, int) {
    window_sum(g, w, h, ax, ay, 64)
}

/// The cell buffer with machine-integer components.
pub open spec fn pooled_cells(g: Seq<(i32, i32)>, w: int, h: int) -> Seq<(i64, i64)> {
    cell_grid(g, w, h).map_values(|c: (int, int)| (c.0 as i64, c.1 as i64))
}

/// Number of cells per row that the renderer reads.
pub open spec fn cells_per_row(w: int) -> int {
    w / 8
}

/// Length of the cell buffer: one spare row and column.
pub open spec fn grid_len(w: int, h: int) -> int {
    (w / 8 + 1) * (h / 8 + 1)
}

/// Number of anchors along a side of length `d` (anchors at 0, 8, 16, ...).
pub open spec fn anchor_count(d: int) -> int {
    (d + 7) / 8
}

/// Buffer index written for the anchor in column `cx` and row `cy`.
pub open spec fn slot(w: int, cx: int, cy: int) -> int {
    cy * cells_per_row(w) + cx
}

/// The cell buffer after the first `k` anchors, in row-major order, have
/// stored their pooled gradient at their slot; a later write to a slot
/// replaces an earlier one.
pub open spec fn cells_after(g: Seq<(i32, i32)>, w: int, h: int, k: nat) -> Seq<(int, int)>
    decreases k,
{
    if k == 0 {
        Seq::new(grid_len(w, h) as nat, |i: int| (0int, 0int))
    } else {
        let j = k - 1;
        let nx = anchor_count(w);
        let cx = j % nx;
        let cy = j / nx;
        cells_after(g, w, h, (k - 1) as nat).update(slot(w, cx, cy), cell_sum(g, w, h, 8 * cx, 8 * cy))
    }
}

/// The cell buffer that pooling produces.
pub open spec fn cell_grid(g: Seq<(i32, i32)>, w: int, h: int) -> Seq<(int, int)> {
    cells_after(g, w, h, (anchor_count(w) * anchor_count(h)) as nat)
}

proof fn lemma_slot_in_grid(w: int, h: int, cx: int, cy: int)
    requires
        w >= 0,
        h >= 0,
        0 <= cx < anchor_count(w),
        0 <= cy < anchor_count(h),
    ensures
        0 <= slot(w, cx, cy) < grid_len(w, h),
{
    let c = w / 8;
    let r = h / 8;
    assert(cx <= c && cy <= r);
    assert(0 <= cy * c + cx < (c + 1) * (r + 1)) by (nonlinear_arith)
        requires 0 <= cx <= c, 0 <= cy <= r;
}

proof fn lemma_grid_len_bound(w: int, h: int)
    requires
        w >= 0,
        h >= 0,
    ensures
        grid_len(w, h) >= 1,
        w >= 1 && h >= 1 ==> grid_len(w, h) <= w * h,
        w == 0 ==> grid_len(w, h) == h / 8 + 1,
        h == 0 ==> grid_len(w, h) == w / 8 + 1,
{
    let c = w / 8;
    let r = h / 8;
    assert((c + 1) * (r + 1) >= 1) by (nonlinear_arith)
        requires c >= 0, r >= 0;
    if w == 0 {
        assert((c + 1) * (r + 1) == r + 1) by (nonlinear_arith)
            requires c == 0;
    }
    if h == 0 {
        assert((c + 1) * (r + 1) == c + 1) by (nonlinear_arith)
            requires r == 0;
    }
    if w >= 1 && h >= 1 {
        assert((c + 1) * (r + 1) <= w * h) by (nonlinear_arith)
            requires 1 <= c + 1 <= w, 1 <= r + 1 <= h;
    }
}

/// The column and row of the `j`-th anchor in row-major order.
pub(crate) proof fn lemma_anchor_of(w: int, h: int, j: int)
    requires
        w >= 0,
        h >= 0,
        0 <= j < anchor_count(w) * anchor_count(h),
    ensures
        0 <= j % anchor_count(w) < anchor_count(w),
        0 <= j / anchor_count(w) < anchor_count(h),
        j == (j / anchor_count(w)) * anchor_count(w) + j % anchor_count(w),
        0 <= slot(w, j % anchor_count(w), j / anchor_count(w)) < grid_len(w, h),
{
    let nx = anchor_count(w);
    let ny = anchor_count(h);
    assert(nx > 0) by (nonlinear_arith)
        requires 0 <= j < nx * ny, ny >= 0;
    vstd::arithmetic::div_mod::lemma_fundamental_div_mod(j, nx);
    vstd::arithmetic::div_mod::lemma_mod_bound(j, nx);
    let q = j / nx;
    assert(0 <= q < ny) by (nonlinear_arith)
        requires j == nx * q + j % nx, 0 <= j % nx < nx, 0 <= j < nx * ny, nx > 0;
    assert(j == q * nx + j % nx) by (nonlinear_arith)
        requires j == nx * q + j % nx;
    lemma_slot_in_grid(w, h, j % nx, q);
}

pub(crate) proof fn lemma_cells_after_len(g: Seq<(i32, i32)>, w: int, h: int, k: nat)
    requires
        w >= 0,
        h >= 0,
        k <= anchor_count(w) * anchor_count(h),
    ensures
        cells_after(g, w, h, k).len() == grid_len(w, h),
    decreases k,
{
    if k > 0 {
        lemma_cells_after_len(g, w, h, (k - 1) as nat);
        lemma_anchor_of(w, h, k - 1);
    } else {
        lemma_grid_len_bound(w, h);
    }
}

/// Once the anchor at `(cx, cy)` has written its slot, no later anchor
/// writes the same slot, provided the anchor lies in the visible region.
proof fn lemma_visible_slot_kept(g: Seq<(i32, i32)>, w: int, h: int, cx: int, cy: int, k: nat)
    requires
        w >= 0,
        h >= 0,
        0 <= cx < w / 8,
        0 <= cy < h / 8,
        cy * anchor_count(w) + cx < k <= anchor_count(w) * anchor_count(h),
    ensures
        cells_after(g, w, h, k)[slot(w, cx, cy)] == cell_sum(g, w, h, 8 * cx, 8 * cy),
    decreases k,
{
    let nx = anchor_count(w);
    let k0 = cy * nx + cx;
    let j = k - 1;
    let jx = j % nx;
    let jy = j / nx;
    lemma_anchor_of(w, h, j);
    lemma_slot_in_grid(w, h, cx, cy);
    lemma_cells_after_len(g, w, h, j as nat);
    if j == k0 {
        assert(jx == cx && jy == cy) by {
            vstd::arithmetic::div_mod::lemma_fundamental_div_mod_converse(j, nx, cy, cx);
        }
    } else {
        lemma_visible_slot_kept(g, w, h, cx, cy, j as nat);
        let c = w / 8;
        assert(jy * nx + jx > cy * nx + cx);
        assert(jy * c + jx != cy * c + cx) by (nonlinear_arith)
            requires
                jy * nx + jx > cy * nx + cx,
                0 <= jx < nx,
                0 <= cx < c,
                nx <= c + 1,
                c >= 1,
                jy >= 0,
                cy >= 0,
        {
            if jy == cy {
            } else if jy < cy {
                assert(jy * nx + jx < (jy + 1) * nx);
                assert((jy + 1) * nx <= cy * nx);
            } else {
                assert(jy * c >= (cy + 1) * c);
            }
        }
    }
}

/// Every cell of the visible region holds the pooled gradient of its own anchor.
pub proof fn lemma_visible_cells(g: Seq<(i32, i32)>, w: int, h: int, cx: int, cy: int)
    requires
        w >= 0,
        h >= 0,
        0 <= cx < w / 8,
        0 <= cy < h / 8,
    ensures
        cell_grid(g, w, h)[cy * (w / 8) + cx] == cell_sum(g, w, h, 8 * cx, 8 * cy),
{
    let nx = anchor_count(w);
    let ny = anchor_count(h);
    assert(cy * nx + cx < nx * ny) by (nonlinear_arith)
        requires 0 <= cx < nx, 0 <= cy < ny;
    lemma_visible_slot_kept(g, w, h, cx, cy, (nx * ny) as nat);
}

/// Coordinate `c + d - 4` clamped into `[0, dim - 1]`, computed without overflow.
fn clamp_offset(c: usize, d: usize, dim: usize) -> (r: usize)
    requires
        c < dim,
        d < 8,
    ensures
        r == clamp(c + d - 4, dim - 1),
{
    if d < 4 {
        if c < 4 - d { 0 } else { c - (4 - d) }
    } else if d - 4 > dim - 1 - c {
        dim - 1
    } else {
        c + (d - 4)
    }
}

/// Pooled gradient of the cell anchored at `(ax, ay)`.
fn pool_window(grads: &Vec<(i32, i32)>, w: usize, h: usize, ax: usize, ay: usize) -> (r: (i64, i64))
    requires
        grads@.len() == w * h,
        ax < w,
        ay < h,
    ensures
        r.0 as int == cell_sum(grads@, w as int, h as int, ax as int, ay as int).0,
        r.1 as int == cell_sum(grads@, w as int, h as int, ax as int, ay as int).1,
{
    assert(grads@.len() == grads.len());
    let mut sx: i64 = 0;
    let mut sy: i64 = 0;
    let mut n: usize = 0;
    while n < 64
        invariant
            grads@.len() == w * h,
            w * h <= usize::MAX,
            ax < w,
            ay < h,
            n <= 64,
            sx as int == window_sum(grads@, w as int, h as int, ax as int, ay as int, n as nat).0,
            sy as int == window_sum(grads@, w as int, h as int, ax as int, ay as int, n as nat).1,
            -0x8000_0000 * n <= sx <= 0x8000_0000 * n,
            -0x8000_0000 * n <= sy <= 0x8000_0000 * n,
        decreases 64 - n,
    {
        let px = clamp_offset(ax, n % 8, w);
        let py = clamp_offset(ay, n / 8, h);
        proof {
            assert(0 <= py * w + px < w * h) by (nonlinear_arith)
                requires px < w, py < h;
        }
        let here = grads[py * w + px];
        sx = sx + here.0 as i64;
        sy = sy + here.1 as i64;
        n = n + 1;
    }
    (sx, sy)
}

/// Pools the gradient field into 8x8 cells. An anchor stands at every pixel
/// whose coordinates are both multiples of 8; its cell holds the sum of the
/// gradients in the window `[x - 4, x + 3] x [y - 4, y + 3]`, coordinates
/// clamped into the field. The anchor in column `cx` and row `cy` stores its
/// cell at `cy * (w / 8) + cx` of a buffer of `(w / 8 + 1) * (h / 8 + 1)`
/// cells, anchors taken in row-major order, so that along a partial last
/// column a later anchor may replace an earlier one; the cells of the visible
/// region, `cx < w / 8` and `cy < h / 8`, always hold their own anchor's sum.
pub fn pack_cells(grads: &Vec<(i32, i32)>, w: usize, h: usize) -> (r: Vec<(i64, i64)>)
    requires
        grads@.len() == w * h,
    ensures
        r@.len() == grid_len(w as int, h as int),
        r@ == pooled_cells(grads@, w as int, h as int),
        forall|i: int| 0 <= i < r@.len() ==>
            (#[trigger] r@[i]).0 as int == cell_grid(grads@, w as int, h as int)[i].0
            && r@[i].1 as int == cell_grid(grads@, w as int, h as int)[i].1,
        forall|cx: int, cy: int| 0 <= cx < w / 8 && 0 <= cy < h / 8 ==>
            (#[trigger] r@[cy * (w / 8) + cx]).0 as int == cell_sum(grads@, w as int, h as int, 8 * cx, 8 * cy).0
            && r@[cy * (w / 8) + cx].1 as int == cell_sum(grads@, w as int, h as int, 8 * cx, 8 * cy).1,
{
    assert(grads@.len() == grads.len());
    let cols = w / 8;
    let rows = h / 8;
    let nx = if w % 8 == 0 { cols } else { cols + 1 };
    let ny = if h % 8 == 0 { rows } else { rows + 1 };
    proof {
        lemma_grid_len_bound(w as int, h as int);
        if w >= 1 && h >= 1 {
            assert(grid_len(w as int, h as int) <= w * h);
        }
        assert(grid_len(w as int, h as int) == (cols + 1) * (rows + 1));
    }
    let total = (cols + 1) * (rows + 1);
    let mut packed: Vec<(i64, i64)> = Vec::new();
    let mut i: usize = 0;
    while i < total
        invariant
            total == grid_len(w as int, h as int),
            i <= total,
            packed@.len() == i,
            forall|j: int| 0 <= j < i ==> (#[trigger] packed@[j]) == (0i64, 0i64),
        decreases total - i,
    {
        packed.push((0, 0));
        i = i + 1;
    }
    proof {
        assert(nx == anchor_count(w as int) && ny == anchor_count(h as int));
    }
    let mut cy: usize = 0;
    while cy < ny
        invariant
            grads@.len() == w * h,
            cols == w / 8,
            nx == anchor_count(w as int),
            ny == anchor_count(h as int),
            cy <= ny,
            total == grid_len(w as int, h as int),
            packed@.len() == grid_len(w as int, h as int),
            forall|i: int| 0 <= i < packed@.len() ==>
                (#[trigger] packed@[i]).0 as int == cells_after(grads@, w as int, h as int, (cy * nx) as nat)[i].0
                && packed@[i].1 as int == cells_after(grads@, w as int, h as int, (cy * nx) as nat)[i].1,
        decreases ny - cy,
    {
        let mut cx: usize = 0;
        while cx < nx
            invariant
                grads@.len() == w * h,
                cols == w / 8,
                nx == anchor_count(w as int),
                ny == anchor_count(h as int),
                cy < ny,
                cx <= nx,
                total == grid_len(w as int, h as int),
                packed@.len() == grid_len(w as int, h as int),
                forall|i: int| 0 <= i < packed@.len() ==>
                    (#[trigger] packed@[i]).0 as int == cells_after(grads@, w as int, h as int, (cy * nx + cx) as nat)[i].0
                    && packed@[i].1 as int == cells_after(grads@, w as int, h as int, (cy * nx + cx) as nat)[i].1,
            decreases nx - cx,
        {
            let k: Ghost<int> = Ghost(cy * nx + cx);
            proof {
                assert(cy * nx + cx < nx * ny) by (nonlinear_arith)
                    requires cx < nx, cy < ny;
                lemma_anchor_of(w as int, h as int, k@);
                vstd::arithmetic::div_mod::lemma_fundamental_div_mod_converse(k@, nx as int, cy as int, cx as int);
                lemma_cells_after_len(grads@, w as int, h as int, k@ as nat);
                lemma_slot_in_grid(w as int, h as int, cx as int, cy as int);
            }
            let cell = pool_window(grads, w, h, 8 * cx, 8 * cy);
            let at = cy * cols + cx;
            packed.set(at, cell);
            proof {
                assert(cells_after(grads@, w as int, h as int, (k@ + 1) as nat)
                    == cells_after(grads@, w as int, h as int, k@ as nat).update(at as int,
                        cell_sum(grads@, w as int, h as int, 8 * cx, 8 * cy)));
            }
            cx = cx + 1;
        }
        proof {
            assert(cy * nx + nx == (cy + 1) * nx) by (nonlinear_arith);
        }
        cy = cy + 1;
    }
    proof {
        assert(ny * nx == nx * ny) by (nonlinear_arith);
        assert forall|cx: int, cy: int| 0 <= cx < w / 8 && 0 <= cy < h / 8 implies
            (#[trigger] packed@[cy * (w / 8) + cx]).0 as int == cell_sum(grads@, w as int, h as int, 8 * cx, 8 * cy).0
            && packed@[cy * (w / 8) + cx].1 as int == cell_sum(grads@, w as int, h as int, 8 * cx, 8 * cy).1 by {
            lemma_visible_cells(grads@, w as int, h as int, cx, cy);
            lemma_slot_in_grid(w as int, h as int, cx, cy);
        }
        lemma_cells_after_len(grads@, w as int, h as int, (nx * ny) as nat);
        assert(packed@ =~= pooled_cells(grads@, w as int, h as int));
    }
    packed
}

} // verus!
