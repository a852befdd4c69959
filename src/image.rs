use vstd::prelude::*;

verus! {

/// An RGBA color with 8 bits per channel.
#[derive(Clone, Copy, Debug, PartialEq, Eq, Structural)]
pub struct Color {
    pub r: u8,
    pub g: u8,
    pub b: u8,
    pub a: u8,
}

impl Color {
    pub fn new(r: u8, g: u8, b: u8, a: u8) -> (c: Color)
        ensures
            c == (Color { r, g, b, a }),
    {
        Color { r, g, b, a }
    }
}

/// Row-major position of pixel `(x, y)` in a grid `w` pixels wide.
pub open spec fn pixel_index(w: int, x: int, y: int) -> int {
    y * w + x
}

pub proof fn lemma_pixel_index_in_grid(w: int, h: int, x: int, y: int)
    requires
        0 <= x < w,
        0 <= y < h,
    ensures
        0 <= y * w,
        0 <= pixel_index(w, x, y) < w * h,
{
    assert(0 <= y * w && 0 <= y * w + x < w * h) by (nonlinear_arith)
        requires 0 <= x < w, 0 <= y < h;
}

/// A `width` x `height` grid of colors, stored row by row.
pub struct ColorAttachment {
    width: u32,
    height: u32,
    pixels: Vec<Color>,
}

impl View for ColorAttachment {
    type V = Seq<Color>;

    closed spec fn view(&self) -> Seq<Color> {
        self.pixels@
    }
}

impl ColorAttachment {
    pub closed spec fn spec_width(&self) -> nat {
        self.width as nat
    }

    pub closed spec fn spec_height(&self) -> nat {
        self.height as nat
    }

    pub open spec fn wf(&self) -> bool {
        &&& self@.len() == self.spec_width() * self.spec_height()
        &&& self.spec_width() * self.spec_height() <= usize::MAX
    }

    /// A grid whose pixels are all transparent black.
    pub fn new(width: u32, height: u32) -> (r: ColorAttachment)
        requires
            width * height <= usize::MAX,
        ensures
            r.wf(),
            r.spec_width() == width,
            r.spec_height() == height,
            forall|i: int| 0 <= i < r@.len() ==> r@[i] == (Color { r: 0, g: 0, b: 0, a: 0 }),
    {
        let n: usize = (width as usize) * (height as usize);
        let pixels = vec![Color { r: 0, g: 0, b: 0, a: 0 }; n];
        ColorAttachment { width, height, pixels }
    }

    pub fn width(&self) -> (r: u32)
        ensures
            r == self.spec_width(),
    {
        self.width
    }

    pub fn height(&self) -> (r: u32)
        ensures
            r == self.spec_height(),
    {
        self.height
    }

    /// Sets every pixel to `c`.
    pub fn clear(&mut self, c: Color)
        requires
            old(self).wf(),
        ensures
            final(self).wf(),
            final(self).spec_width() == old(self).spec_width(),
            final(self).spec_height() == old(self).spec_height(),
            final(self)@.len() == old(self)@.len(),
            forall|i: int| 0 <= i < final(self)@.len() ==> final(self)@[i] == c,
    {
        let n = self.pixels.len();
        let mut i: usize = 0;
        while i < n
            invariant
                self.pixels@.len() == n,
                self.width == old(self).width,
                self.height == old(self).height,
                n == old(self)@.len(),
                i <= n,
                forall|j: int| 0 <= j < i ==> self.pixels@[j] == c,
            decreases n - i,
        {
            self.pixels.set(i, c);
            i = i + 1;
        }
    }

    pub fn get(&self, x: u32, y: u32) -> (c: Color)
        requires
            self.wf(),
            x < self.spec_width(),
            y < self.spec_height(),
        ensures
            c == self@[pixel_index(self.spec_width() as int, x as int, y as int)],
    {
        proof {
            lemma_pixel_index_in_grid(self.width as int, self.height as int, x as int, y as int);
        }
        self.pixels[(y as usize) * (self.width as usize) + (x as usize)]
    }

    pub fn set(&mut self, x: u32, y: u32, c: Color)
        requires
            old(self).wf(),
            x < old(self).spec_width(),
            y < old(self).spec_height(),
        ensures
            final(self).wf(),
            final(self).spec_width() == old(self).spec_width(),
            final(self).spec_height() == old(self).spec_height(),
            final(self)@ == old(self)@.update(
                pixel_index(old(self).spec_width() as int, x as int, y as int),
                c,
            ),
    {
        proof {
            lemma_pixel_index_in_grid(self.width as int, self.height as int, x as int, y as int);
        }
        let i = (y as usize) * (self.width as usize) + (x as usize);
        self.pixels.set(i, c);
    }

    /// The pixels as RGBA bytes, four per pixel, row by row.
    pub fn data(&self) -> (r: Vec<u8>)
        requires
            self.wf(),
        ensures
            r@.len() == 4 * self@.len(),
            forall|i: int|
                0 <= i < self@.len() ==> {
                    &&& #[trigger] r@[4 * i] == self@[i].r
                    &&& r@[4 * i + 1] == self@[i].g
                    &&& r@[4 * i + 2] == self@[i].b
                    &&& r@[4 * i + 3] == self@[i].a
                },
    {
        let n = self.pixels.len();
        let mut out: Vec<u8> = Vec::new();
        let mut i: usize = 0;
        while i < n
            invariant
                n == self@.len(),
                i <= n,
                self.wf(),
                out@.len() == 4 * i,
                forall|j: int|
                    0 <= j < i ==> {
                        &&& #[trigger] out@[4 * j] == self@[j].r
                        &&& out@[4 * j + 1] == self@[j].g
                        &&& out@[4 * j + 2] == self@[j].b
                        &&& out@[4 * j + 3] == self@[j].a
                    },
            decreases n - i,
        {
            let c = self.pixels[i];
            let ghost before = out@;
            out.push(c.r);
            out.push(c.g);
            out.push(c.b);
            out.push(c.a);
            proof {
                assert forall|j: int| 0 <= j < i + 1 implies {
                    &&& #[trigger] out@[4 * j] == self@[j].r
                    &&& out@[4 * j + 1] == self@[j].g
                    &&& out@[4 * j + 2] == self@[j].b
                    &&& out@[4 * j + 3] == self@[j].a
                } by {
                    if j < i {
                        assert(before[4 * j] == self@[j].r);
                    }
                }
            }
            i = i + 1;
        }
        out
    }
}

/// A `width` x `height` grid of depth values, stored row by row.
pub struct DepthAttachment {
    width: u32,
    height: u32,
    values: Vec<i128>,
}

impl View for DepthAttachment {
    type V = Seq<i128>;

    closed spec fn view(&self) -> Seq<i128> {
        self.values@
    }
}

impl DepthAttachment {
    pub closed spec fn spec_width(&self) -> nat {
        self.width as nat
    }

    pub closed spec fn spec_height(&self) -> nat {
        self.height as nat
    }

    pub open spec fn wf(&self) -> bool {
        &&& self@.len() == self.spec_width() * self.spec_height()
        &&& self.spec_width() * self.spec_height() <= usize::MAX
    }

    /// A grid whose values are all `i128::MIN`.
    pub fn new(width: u32, height: u32) -> (r: DepthAttachment)
        requires
            width * height <= usize::MAX,
        ensures
            r.wf(),
            r.spec_width() == width,
            r.spec_height() == height,
            forall|i: int| 0 <= i < r@.len() ==> r@[i] == i128::MIN,
    {
        let n: usize = (width as usize) * (height as usize);
        let values = vec![i128::MIN; n];
        DepthAttachment { width, height, values }
    }

    /// Sets every value to `v`.
    pub fn clear(&mut self, v: i128)
        requires
            old(self).wf(),
        ensures
            final(self).wf(),
            final(self).spec_width() == old(self).spec_width(),
            final(self).spec_height() == old(self).spec_height(),
            final(self)@.len() == old(self)@.len(),
            forall|i: int| 0 <= i < final(self)@.len() ==> final(self)@[i] == v,
    {
        let n = self.values.len();
        let mut i: usize = 0;
        while i < n
            invariant
                self.values@.len() == n,
                self.width == old(self).width,
                self.height == old(self).height,
                n == old(self)@.len(),
                i <= n,
                forall|j: int| 0 <= j < i ==> self.values@[j] == v,
            decreases n - i,
        {
            self.values.set(i, v);
            i = i + 1;
        }
    }

    pub fn get(&self, x: u32, y: u32) -> (v: i128)
        requires
            self.wf(),
            x < self.spec_width(),
            y < self.spec_height(),
        ensures
            v == self@[pixel_index(self.spec_width() as int, x as int, y as int)],
    {
        proof {
            lemma_pixel_index_in_grid(self.width as int, self.height as int, x as int, y as int);
        }
        self.values[(y as usize) * (self.width as usize) + (x as usize)]
    }

    pub fn set(&mut self, x: u32, y: u32, v: i128)
        requires
            old(self).wf(),
            x < old(self).spec_width(),
            y < old(self).spec_height(),
        ensures
            final(self).wf(),
            final(self).spec_width() == old(self).spec_width(),
            final(self).spec_height() == old(self).spec_height(),
            final(self)@ == old(self)@.update(
                pixel_index(old(self).spec_width() as int, x as int, y as int),
                v,
            ),
    {
        proof {
            lemma_pixel_index_in_grid(self.width as int, self.height as int, x as int, y as int);
        }
        let i = (y as usize) * (self.width as usize) + (x as usize);
        self.values.set(i, v);
    }
}

} // verus!
