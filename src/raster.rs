use vstd::prelude::*;

verus! {

/// One RGB sample of a decoded image.
#[derive(Clone, Copy, Debug, PartialEq, Eq, Structural)]
pub struct Pixel {
    pub r: u8,
    pub g: u8,
    pub b: u8,
}

impl Pixel {
    /// Sum of the three colour channels.
    pub open spec fn intensity(self) -> int {
        self.r as int + self.g as int + self.b as int
    }
}

/// A decoded image, row-major: the pixel at `(x, y)` is `pixels[y * width + x]`.
pub struct Image {
    pub width: u32,
    pub height: u32,
    pub pixels: Vec<Pixel>,
}

/// Clamp `v` into `[0, hi]`.
pub open spec fn clamp(v: int, hi: int) -> int {
    if v < 0 {
        0
    } else if v > hi {
        hi
    } else {
        v
    }
}

/// `img` is the `width` by `height` image whose pixels are the first
/// `width * height` RGB triples of `raw`.
pub open spec fn image_of_rgb(img: Image, width: u32, height: u32, raw: Seq<u8>) -> bool {
    &&& img.width == width
    &&& img.height == height
    &&& img.wf()
    &&& forall|i: int| 0 <= i < img.pixels@.len() ==> (#[trigger] img.pixels@[i]) == (Pixel {
        r: raw[3 * i],
        g: raw[3 * i + 1],
        b: raw[3 * i + 2],
    })
}

impl Image {
    /// The buffer holds exactly one pixel per position.
    pub open spec fn wf(&self) -> bool {
        self.pixels@.len() == self.width as int * self.height as int
    }

    /// Intensity of the pixel at `(x, y)`.
    pub open spec fn intensity_at(&self, x: int, y: int) -> int {
        self.pixels@[y * self.width + x].intensity()
    }

    /// Intensity at `(x, y)` with both coordinates clamped into the image.
    pub open spec fn clamped_intensity(&self, x: int, y: int) -> int {
        self.intensity_at(clamp(x, self.width - 1), clamp(y, self.height - 1))
    }

    /// Horizontal gradient at `(x, y)`: right neighbour minus left neighbour.
    pub open spec fn grad_x(&self, x: int, y: int) -> int {
        self.clamped_intensity(x + 1, y) - self.clamped_intensity(x - 1, y)
    }

    /// Vertical gradient at `(x, y)`: lower neighbour minus upper neighbour.
    pub open spec fn grad_y(&self, x: int, y: int) -> int {
        self.clamped_intensity(x, y + 1) - self.clamped_intensity(x, y - 1)
    }

    /// The gradient field: one vector per pixel, row-major.
    pub open spec fn gradient_field(&self) -> Seq<(int, int)> {
        Seq::new(
            (self.width * self.height) as nat,
            |i: int| (self.grad_x(i % self.width as int, i / self.width as int),
                      self.grad_y(i % self.width as int, i / self.width as int)),
        )
    }

    /// The gradient field with machine-integer components; every component
    /// lies within `[-765, 765]`, so the casts keep its value.
    pub open spec fn gradient_vecs(&self) -> Seq<(i32, i32)> {
        self.gradient_field().map_values(|v: (int, int)| (v.0 as i32, v.1 as i32))
    }

    /// Builds an image from a buffer of packed RGB triples, of which the
    /// first `width * height` are used. Returns `None` when the buffer is
    /// shorter than that.
    pub fn from_rgb_bytes(width: u32, height: u32, raw: &Vec<u8>) -> (r: Option<Image>)
        ensures
            r is Some <==> raw@.len() >= 3 * (width as int * height as int),
            r matches Some(img) ==> image_of_rgb(img, width, height, raw@),
    {
        let w = width as usize;
        let h = height as usize;
        let len = raw.len();
        if w != 0 && h > len / 3 / w {
            proof {
                let q = (raw@.len() as int) / 3 / (w as int);
                assert(raw@.len() < 3 * (w as int * h as int)) by (nonlinear_arith)
                    requires q == (raw@.len() as int) / 3 / (w as int), h >= q + 1, w > 0;
            }
            return None;
        }
        proof {
            if w != 0 {
                let q = (raw@.len() as int) / 3 / (w as int);
                assert(3 * (w as int * h as int) <= raw@.len()) by (nonlinear_arith)
                    requires q == (raw@.len() as int) / 3 / (w as int), h <= q, w > 0;
            }
        }
        assert(3 * (w as int * h as int) <= len);
        let n = w * h;
        let mut pixels: Vec<Pixel> = Vec::new();
        let mut i: usize = 0;
        while i < n
            invariant
                n == w * h,
                len == raw@.len(),
                3 * n <= len,
                i <= n,
                pixels@.len() == i,
                forall|j: int| 0 <= j < i ==> (#[trigger] pixels@[j]) == (Pixel {
                    r: raw@[3 * j],
                    g: raw@[3 * j + 1],
                    b: raw@[3 * j + 2],
                }),
            decreases n - i,
        {
            pixels.push(Pixel { r: raw[3 * i], g: raw[3 * i + 1], b: raw[3 * i + 2] });
            i = i + 1;
        }
        Some(Image { width, height, pixels })
    }
}

} // verus!
