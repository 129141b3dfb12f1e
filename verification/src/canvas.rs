//! The pixel buffer a render writes into.
//!
//! A canvas is a fixed-size grid of pixels stored row-major.  The renderer
//! only ever writes one pixel at a time and reads pixels back; the pixel type
//! itself is left to the caller (the shading pipeline uses an RGB color).
//! Addressing a pixel outside the grid is a bounds violation, not a clamped
//! or recoverable condition, so both accessors demand in-range coordinates.

use vstd::prelude::*;

verus! {

/// A `width` x `height` grid of pixels, stored row by row.
pub struct Canvas<T> {
    width: usize,
    height: usize,
    pixels: Vec<T>,
}

impl<T: Copy> Canvas<T> {
    /// The number of pixel columns.
    pub closed spec fn spec_width(self) -> int {
        self.width as int
    }

    /// The number of pixel rows.
    pub closed spec fn spec_height(self) -> int {
        self.height as int
    }

    /// The pixels, row by row: the pixel at column `x` of row `y` stands at
    /// position `y * width + x`.
    pub closed spec fn pixels_view(self) -> Seq<T> {
        self.pixels@
    }

    /// The grid holds exactly one pixel per coordinate pair.
    pub open spec fn wf(self) -> bool {
        self.pixels_view().len() == self.spec_width() * self.spec_height()
    }

    /// A canvas of the given size with every pixel set to `fill`.
    pub fn new(width: usize, height: usize, fill: T) -> (r: Canvas<T>)
        requires
            width * height <= usize::MAX,
        ensures
            r.wf(),
            r.spec_width() == width,
            r.spec_height() == height,
            forall|i: int| 0 <= i < r.pixels_view().len() ==> r.pixels_view()[i] == fill,
    {
        let n = width * height;
        let mut pixels: Vec<T> = Vec::new();
        let mut k: usize = 0;
        while k < n
            invariant
                k <= n,
                pixels@.len() == k,
                forall|i: int| 0 <= i < k ==> pixels@[i] == fill,
            decreases n - k,
        {
            pixels.push(fill);
            k = k + 1;
        }
        Canvas { width, height, pixels }
    }

    /// The number of pixel columns.
    pub fn width(&self) -> (r: usize)
        ensures
            r == self.spec_width(),
    {
        self.width
    }

    /// The number of pixel rows.
    pub fn height(&self) -> (r: usize)
        ensures
            r == self.spec_height(),
    {
        self.height
    }

    /// Row-major position of the pixel at column `x` of row `y`.
    fn coord_to_index(&self, x: usize, y: usize) -> (r: usize)
        requires
            self.wf(),
            x < self.spec_width(),
            y < self.spec_height(),
        ensures
            r == y * self.spec_width() + x,
            r < self.pixels_view().len(),
    {
        let n = self.pixels.len();
        proof {
            vstd::arithmetic::mul::lemma_mul_inequality(
                y as int + 1,
                self.spec_height(),
                self.spec_width(),
            );
            vstd::arithmetic::mul::lemma_mul_is_distributive_add_other_way(
                self.spec_width(),
                y as int,
                1,
            );
            vstd::arithmetic::mul::lemma_mul_is_commutative(
                self.spec_height(),
                self.spec_width(),
            );
            vstd::arithmetic::mul::lemma_mul_is_commutative(y as int, self.spec_width());
            assert(y * self.spec_width() + x < n);
        }
        x + y * self.width
    }

    /// Replace the pixel at column `x` of row `y` with `col`, leaving every
    /// other pixel and the grid's size as they were.
    pub fn write_pixel(&mut self, x: usize, y: usize, col: T)
        requires
            old(self).wf(),
            x < old(self).spec_width(),
            y < old(self).spec_height(),
        ensures
            final(self).wf(),
            final(self).spec_width() == old(self).spec_width(),
            final(self).spec_height() == old(self).spec_height(),
            final(self).pixels_view() == old(self).pixels_view().update(
                y * old(self).spec_width() + x,
                col,
            ),
    {
        let index = self.coord_to_index(x, y);
        self.pixels.set(index, col);
    }

    /// The pixel at column `x` of row `y`.
    pub fn pixel_at(&self, x: usize, y: usize) -> (r: T)
        requires
            self.wf(),
            x < self.spec_width(),
            y < self.spec_height(),
        ensures
            r == self.pixels_view()[y * self.spec_width() + x],
    {
        let index = self.coord_to_index(x, y);
        self.pixels[index]
    }
}

} // verus!
