use vstd::prelude::*;
use crate::raster::{Image, clamp};

verus! {

proof fn lemma_index_in_grid(x: int, y: int, w: int, h: int)
    requires
        0 <= x < w,
        0 <= y < h,
    ensures
        0 <= y * w + x < w * h,
        (y * w + x) / w == y,
        (y * w + x) % w == x,
{
    assert(y * w + x < w * h) by (nonlinear_arith)
        requires 0 <= x < w, 0 <= y < h;
    assert(0 <= y * w) by (nonlinear_arith)
        requires 0 <= y, 0 <= w;
    vstd::arithmetic::div_mod::lemma_fundamental_div_mod_converse(y * w + x, w, y, x);
}

/// Intensity of the pixel at `(x, y)`, which lies inside the image.
fn intensity(img: &Image, x: usize, y: usize) -> (r: i32)
    requires
        img.wf(),
        x < img.width,
        y < img.height,
    ensures
        r == img.intensity_at(x as int, y as int),
        0 <= r <= 765,
{
    proof {
        lemma_index_in_grid(x as int, y as int, img.width as int, img.height as int);
    }
    assert(img.pixels@.len() == img.pixels.len());
    let p = img.pixels[y * (img.width as usize) + x];
    p.r as i32 + p.g as i32 + p.b as i32
}

/// Computes the gradient of every pixel from its four neighbours, with
/// coordinates clamped into the image so that edge pixels are replicated.
/// The field is row-major: the gradient of `(x, y)` is at `y * width + x`.
pub fn compute_gradient(img: &Image) -> (r: Vec<(i32, i32)>)
    requires
        img.wf(),
    ensures
        r@.len() == img.width as int * img.height as int,
        r@ == img.gradient_vecs(),
        forall|i: int| 0 <= i < r@.len() ==>
            (#[trigger] r@[i]).0 as int == img.gradient_field()[i].0
            && r@[i].1 as int == img.gradient_field()[i].1,
{
    let w = img.width as usize;
    let h = img.height as usize;
    let mut grads: Vec<(i32, i32)> = Vec::new();
    let mut y: usize = 0;
    while y < h
        invariant
            img.wf(),
            w == img.width,
            h == img.height,
            y <= h,
            grads@.len() == y * w,
            forall|i: int| 0 <= i < grads@.len() ==>
                (#[trigger] grads@[i]).0 as int == img.gradient_field()[i].0
                && grads@[i].1 as int == img.gradient_field()[i].1,
        decreases h - y,
    {
        let mut x: usize = 0;
        while x < w
            invariant
                img.wf(),
                w == img.width,
                h == img.height,
                y < h,
                x <= w,
                grads@.len() == y * w + x,
                forall|i: int| 0 <= i < grads@.len() ==>
                    (#[trigger] grads@[i]).0 as int == img.gradient_field()[i].0
                    && grads@[i].1 as int == img.gradient_field()[i].1,
            decreases w - x,
        {
            let left = if x == 0 { 0 } else { x - 1 };
            let right = if x + 1 >= w { w - 1 } else { x + 1 };
            let up = if y == 0 { 0 } else { y - 1 };
            let down = if y + 1 >= h { h - 1 } else { y + 1 };
            let gx = intensity(img, right, y) - intensity(img, left, y);
            let gy = intensity(img, x, down) - intensity(img, x, up);
            proof {
                lemma_index_in_grid(x as int, y as int, w as int, h as int);
                assert(img.gradient_field()[y * w + x] == (img.grad_x(x as int, y as int), img.grad_y(x as int, y as int)));
            }
            grads.push((gx, gy));
            x = x + 1;
        }
        proof {
            assert((y + 1) * w == y * w + w) by (nonlinear_arith);
        }
        y = y + 1;
    }
    assert(h * w == w * h) by (nonlinear_arith);
    assert(grads@ =~= img.gradient_vecs());
    grads
}

} // verus!
