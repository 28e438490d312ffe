use vstd::prelude::*;

use crate::color::Rgba;
use crate::console::lemma_row_major;

verus! {

/// A fixed-size off-screen pixel canvas, row-major. It serves both as the
/// decoded glyph atlas and as the frame buffer the renderer composites into.
pub struct Bitmap {
    pub width: u32,
    pub height: u32,
    pub pixels: Vec<Rgba>,
}

impl Bitmap {
    /// Structural invariant: one pixel per canvas cell.
    pub open spec fn wf(&self) -> bool {
        self.pixels@.len() == self.width as int * self.height as int
    }

    /// Row-major index of pixel position `(x, y)`.
    pub open spec fn pixel_index(&self, x: int, y: int) -> int {
        x + y * self.width as int
    }

    /// The pixel at `(x, y)`.
    pub open spec fn spec_pixel(&self, x: int, y: int) -> Rgba {
        self.pixels@[self.pixel_index(x, y)]
    }

    /// Allocate a canvas of the given extent with every pixel set to `fill`.
    pub fn new(width: u32, height: u32, fill: Rgba) -> (b: Bitmap)
        requires
            width as int * height as int <= usize::MAX as int,
        ensures
            b.wf(),
            b.width == width,
            b.height == height,
            forall|x: int, y: int|
                0 <= x < width && 0 <= y < height ==> b.spec_pixel(x, y) == fill,
    {
        proof {
            assert(0 <= width as int * height as int) by (nonlinear_arith)
                requires
                    0 <= width as int,
                    0 <= height as int,
            ;
        }
        let n: usize = width as usize * height as usize;
        let mut pixels: Vec<Rgba> = Vec::new();
        let mut i: usize = 0;
        while i < n
            invariant
                i <= n,
                pixels@.len() == i as int,
                forall|j: int| 0 <= j < i ==> pixels@[j] == fill,
            decreases n - i,
        {
            pixels.push(fill);
            i = i + 1;
        }
        let b = Bitmap { width, height, pixels };
        proof {
            assert forall|x: int, y: int| 0 <= x < width && 0 <= y < height implies b.spec_pixel(
                x,
                y,
            ) == fill by {
                lemma_row_major(x, y, width as int, height as int);
            }
        }
        b
    }

    /// Read the pixel at an in-bounds position.
    pub fn pixel(&self, x: u32, y: u32) -> (p: Rgba)
        requires
            self.wf(),
            x < self.width,
            y < self.height,
        ensures
            p == self.spec_pixel(x as int, y as int),
    {
        let n = self.pixels.len();
        proof {
            lemma_row_major(x as int, y as int, self.width as int, self.height as int);
            assert(self.pixels@.len() == n as int && n <= usize::MAX);
        }
        self.pixels[x as usize + y as usize * self.width as usize]
    }

    /// Overwrite the pixel at an in-bounds position; every other pixel keeps
    /// its colour.
    pub fn set_pixel(&mut self, x: u32, y: u32, p: Rgba)
        requires
            old(self).wf(),
            x < old(self).width,
            y < old(self).height,
        ensures
            final(self).wf(),
            final(self).width == old(self).width,
            final(self).height == old(self).height,
            final(self).pixels@ == old(self).pixels@.update(
                old(self).pixel_index(x as int, y as int),
                p,
            ),
            final(self).spec_pixel(x as int, y as int) == p,
            forall|i: int, j: int|
                0 <= i < old(self).width && 0 <= j < old(self).height && !(i == x as int && j == y
                    as int) ==> final(self).spec_pixel(i, j) == old(self).spec_pixel(i, j),
    {
        let n = self.pixels.len();
        proof {
            lemma_row_major(x as int, y as int, self.width as int, self.height as int);
            assert(self.pixels@.len() == n as int && n <= usize::MAX);
        }
        let idx: usize = x as usize + y as usize * self.width as usize;
        self.pixels[idx] = p;
        proof {
            assert forall|i: int, j: int|
                0 <= i < old(self).width && 0 <= j < old(self).height && !(i == x as int && j == y
                    as int) implies self.spec_pixel(i, j) == old(self).spec_pixel(i, j) by {
                lemma_row_major(i, j, old(self).width as int, old(self).height as int);
                lemma_row_major(x as int, y as int, old(self).width as int, old(self).height as int);
                if i + j * old(self).width as int == x as int + y as int * old(self).width as int {
                    assert(i == x as int && j == y as int);
                }
            }
        }
    }
}

} // verus!
