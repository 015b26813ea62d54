use vstd::prelude::*;
use crate::raster::{Image, clamp};
use crate::gradient::compute_gradient;
use crate::cells::{pack_cells, pooled_cells, cell_grid, cells_after, cell_sum, window_sum, anchor_count, grid_len, slot};
use crate::glyphs::{render_grad, rendered};

verus! {

/// The glyph text of an image: its gradient field, pooled into cells,
/// rendered over the visible region.
pub open spec fn glyph_text(img: Image) -> Seq<char> {
    let w = img.width as int;
    let h = img.height as int;
    rendered(pooled_cells(img.gradient_vecs(), w, h), w, h)
}

/// Runs the three stages on a decoded image and returns the glyph text:
/// `height / 8` lines of `width / 8` arrows, each ended by a newline.
pub fn gradient_glyphs(img: &Image) -> (r: Vec<char>)
    requires
        img.wf(),
    ensures
        r@ == glyph_text(*img),
{
    let grads = compute_gradient(img);
    let w = img.width as usize;
    let h = img.height as usize;
    let packed = pack_cells(&grads, w, h);
    proof {
        let c = w as int / 8;
        let r = h as int / 8;
        assert(c * r <= (c + 1) * (r + 1)) by (nonlinear_arith)
            requires c >= 0, r >= 0;
    }
    render_grad(&packed, img.width, img.height)
}

/// Running the pipeline on two images with the same size and pixels gives
/// the same text, so running it twice on one image gives identical output.
pub proof fn lemma_pipeline_deterministic(a: Image, b: Image)
    requires
        a.wf(),
        a.width == b.width,
        a.height == b.height,
        a.pixels@ == b.pixels@,
    ensures
        glyph_text(a) == glyph_text(b),
{
    assert(a.gradient_field() =~= b.gradient_field());
    assert(a.gradient_vecs() =~= b.gradient_vecs());
}

/// In an image one pixel wide every horizontal gradient is zero: the left
/// and right neighbours are both clamped onto the pixel itself.
pub proof fn lemma_single_column(img: Image)
    requires
        img.wf(),
        img.width == 1,
    ensures
        forall|i: int| 0 <= i < img.gradient_field().len() ==> (#[trigger] img.gradient_field()[i]).0 == 0,
{
}

/// At the top-left corner the neighbours outside the image are replaced by
/// the corner pixel itself, and every neighbour sampled lies in the image.
pub proof fn lemma_corner_gradient(img: Image)
    requires
        img.wf(),
        img.width >= 1,
        img.height >= 1,
    ensures
        0 <= clamp(-1, img.width - 1) == 0,
        0 <= clamp(1, img.width - 1) < img.width,
        0 <= clamp(1, img.height - 1) < img.height,
        img.grad_x(0, 0) == img.intensity_at(clamp(1, img.width - 1), 0) - img.intensity_at(0, 0),
        img.grad_y(0, 0) == img.intensity_at(0, clamp(1, img.height - 1)) - img.intensity_at(0, 0),
{
}

/// The text has `h / 8` lines of `w / 8` glyphs: a newline stands exactly at
/// every position `w / 8` of a line, and nowhere else.
pub proof fn lemma_rendered_shape(cells: Seq<(i64, i64)>, w: int, h: int)
    requires
        w >= 0,
        h >= 0,
    ensures
        rendered(cells, w, h).len() == (h / 8) * (w / 8 + 1),
        forall|i: int| 0 <= i < rendered(cells, w, h).len() ==>
            ((#[trigger] rendered(cells, w, h)[i]) == '\n' <==> i % (w / 8 + 1) == w / 8),
{
    let n = (h / 8) * (w / 8 + 1);
    assert(n >= 0) by (nonlinear_arith)
        requires w >= 0, h >= 0, n == (h / 8) * (w / 8 + 1);
}

/// A window whose samples are all zero sums to zero.
proof fn lemma_zero_window(g: Seq<(i32, i32)>, w: int, h: int, ax: int, ay: int, n: nat)
    requires
        w >= 1,
        h >= 1,
        g.len() == w * h,
        forall|i: int| 0 <= i < g.len() ==> #[trigger] g[i] == (0i32, 0i32),
    ensures
        window_sum(g, w, h, ax, ay, n) == (0int, 0int),
    decreases n,
{
    if n > 0 {
        lemma_zero_window(g, w, h, ax, ay, (n - 1) as nat);
        let x = clamp(ax + (n - 1) % 8 - 4, w - 1);
        let y = clamp(ay + (n - 1) / 8 - 4, h - 1);
        assert(0 <= y * w + x < w * h) by (nonlinear_arith)
            requires 0 <= x < w, 0 <= y < h;
    }
}

/// With every pixel gradient zero, every cell of the buffer is zero.
proof fn lemma_zero_cells(g: Seq<(i32, i32)>, w: int, h: int, k: nat)
    requires
        w >= 0,
        h >= 0,
        g.len() == w * h,
        forall|i: int| 0 <= i < g.len() ==> #[trigger] g[i] == (0i32, 0i32),
        k <= anchor_count(w) * anchor_count(h),
    ensures
        cells_after(g, w, h, k).len() == grid_len(w, h),
        forall|i: int| 0 <= i < grid_len(w, h) ==> #[trigger] cells_after(g, w, h, k)[i] == (0int, 0int),
    decreases k,
{
    crate::cells::lemma_cells_after_len(g, w, h, k);
    if k > 0 {
        lemma_zero_cells(g, w, h, (k - 1) as nat);
        let j = k - 1;
        let nx = anchor_count(w);
        let ny = anchor_count(h);
        assert(w >= 1 && h >= 1) by (nonlinear_arith)
            requires 0 <= j < nx * ny, nx == (w + 7) / 8, ny == (h + 7) / 8, w >= 0, h >= 0;
        lemma_zero_window(g, w, h, 8 * (j % nx), 8 * (j / nx), 64);
        crate::cells::lemma_anchor_of(w, h, j);
        let prev = cells_after(g, w, h, (k - 1) as nat);
        let v = cell_sum(g, w, h, 8 * (j % nx), 8 * (j / nx));
        assert(v == (0int, 0int));
        assert(cells_after(g, w, h, k) == prev.update(slot(w, j % nx, j / nx), v));
        assert forall|i: int| 0 <= i < grid_len(w, h) implies #[trigger] cells_after(g, w, h, k)[i] == (0int, 0int) by {
            assert(prev[i] == (0int, 0int));
        }
    }
}

/// In an image of one colour every pixel gradient and every cell is zero,
/// and every glyph is the one of the zero vector, the left arrow.
pub proof fn lemma_uniform_image(img: Image)
    requires
        img.wf(),
        forall|i: int| 0 <= i < img.pixels@.len() ==> #[trigger] img.pixels@[i] == img.pixels@[0],
    ensures
        forall|i: int| 0 <= i < img.gradient_field().len() ==> #[trigger] img.gradient_field()[i] == (0int, 0int),
        forall|i: int| 0 <= i < grid_len(img.width as int, img.height as int) ==>
            #[trigger] cell_grid(img.gradient_vecs(), img.width as int, img.height as int)[i] == (0int, 0int),
        forall|i: int| 0 <= i < glyph_text(img).len() ==>
            #[trigger] glyph_text(img)[i] == (if i % (img.width / 8 + 1) == img.width / 8 { '\n' } else { '←' }),
{
    let w = img.width as int;
    let h = img.height as int;
    assert forall|i: int| 0 <= i < img.gradient_field().len() implies #[trigger] img.gradient_field()[i] == (0int, 0int) by {
        let x = i % w;
        let y = i / w;
        assert(w > 0) by (nonlinear_arith)
            requires 0 <= i < w * h, h >= 0;
        vstd::arithmetic::div_mod::lemma_fundamental_div_mod(i, w);
        vstd::arithmetic::div_mod::lemma_mod_bound(i, w);
        assert(0 <= y < h) by (nonlinear_arith)
            requires i == w * y + x, 0 <= x < w, 0 <= i < w * h, w > 0;
        assert forall|px: int, py: int| 0 <= px < w && 0 <= py < h implies
            #[trigger] img.intensity_at(px, py) == img.pixels@[0].intensity() by {
            assert(0 <= py * w + px < w * h) by (nonlinear_arith)
                requires 0 <= px < w, 0 <= py < h;
        }
        assert(img.intensity_at(clamp(x + 1, w - 1), clamp(y, h - 1)) == img.pixels@[0].intensity());
        assert(img.intensity_at(clamp(x - 1, w - 1), clamp(y, h - 1)) == img.pixels@[0].intensity());
        assert(img.intensity_at(clamp(x, w - 1), clamp(y + 1, h - 1)) == img.pixels@[0].intensity());
        assert(img.intensity_at(clamp(x, w - 1), clamp(y - 1, h - 1)) == img.pixels@[0].intensity());
    }
    let g = img.gradient_vecs();
    assert forall|i: int| 0 <= i < g.len() implies #[trigger] g[i] == (0i32, 0i32) by {
        assert(img.gradient_field()[i] == (0int, 0int));
    }
    lemma_zero_cells(g, w, h, (anchor_count(w) * anchor_count(h)) as nat);
    let cells = pooled_cells(g, w, h);
    assert forall|i: int| 0 <= i < cells.len() implies #[trigger] cells[i] == (0i64, 0i64) by {
        assert(cell_grid(g, w, h)[i] == (0int, 0int));
    }
    let cols = w / 8;
    let rows = h / 8;
    assert forall|i: int| 0 <= i < glyph_text(img).len() implies
        #[trigger] glyph_text(img)[i] == (if i % (cols + 1) == cols { '\n' } else { '←' }) by {
        if i % (cols + 1) != cols {
            let r = i / (cols + 1);
            let c = i % (cols + 1);
            vstd::arithmetic::div_mod::lemma_fundamental_div_mod(i, cols + 1);
            vstd::arithmetic::div_mod::lemma_mod_bound(i, cols + 1);
            assert(0 <= r < rows) by (nonlinear_arith)
                requires i == (cols + 1) * r + c, 0 <= c < cols + 1, 0 <= i < rows * (cols + 1), cols >= 0;
            assert(0 <= r * cols + c < grid_len(w, h)) by (nonlinear_arith)
                requires 0 <= r < rows, 0 <= c < cols, grid_len(w, h) == (cols + 1) * (rows + 1);
            assert(cells[r * cols + c] == (0i64, 0i64));
        }
    }
}

} // verus!
