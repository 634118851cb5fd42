//! The framebuffer: a width x height grid of packed pixels, stored row-major
//! with the top-left origin, with clear and bounded write operations.

use vstd::prelude::*;
use vstd::arithmetic::mul::lemma_mul_inequality;

verus! {

/// Writes at pixel `(x, y)` land strictly inside the row-major grid.
pub proof fn lemma_pixel_index(x: int, y: int, width: int, height: int)
    requires
        0 <= x < width,
        0 <= y < height,
    ensures
        0 <= y * width + x < width * height,
{
    lemma_mul_inequality(y, height - 1, width);
    assert((height - 1) * width == height * width - width) by (nonlinear_arith);
    assert(height * width == width * height) by (nonlinear_arith);
    assert(y * width >= 0) by (nonlinear_arith)
        requires y >= 0 && width > 0;
}

/// Two distinct in-range pixels have distinct row-major indices.
pub proof fn lemma_pixel_index_injective(x0: int, y0: int, x1: int, y1: int, width: int)
    requires
        0 <= x0 < width,
        0 <= x1 < width,
        0 <= y0,
        0 <= y1,
        !(x0 == x1 && y0 == y1),
    ensures
        y0 * width + x0 != y1 * width + x1,
{
    if y0 != y1 {
        if y0 < y1 {
            lemma_mul_inequality(y0 + 1, y1, width);
            assert((y0 + 1) * width == y0 * width + width) by (nonlinear_arith);
        } else {
            lemma_mul_inequality(y1 + 1, y0, width);
            assert((y1 + 1) * width == y1 * width + width) by (nonlinear_arith);
        }
    }
}

/// A fixed-size grid of packed `0x00RRGGBB` pixels, row-major from the
/// top-left corner.
#[derive(Debug)]
pub struct Framebuffer {
    pub width: usize,
    pub height: usize,
    pub buffer: Vec<u32>,
}

impl Framebuffer {
    /// The buffer holds exactly one pixel per grid cell.
    pub open spec fn well_formed(self) -> bool {
        self.buffer@.len() == self.width * self.height
    }

    /// Allocates a width x height framebuffer with every pixel zeroed.
    pub fn new(width: usize, height: usize) -> (fb: Framebuffer)
        requires
            width * height <= usize::MAX,
        ensures
            fb.width == width,
            fb.height == height,
            fb.well_formed(),
            fb.buffer@ == Seq::new((width * height) as nat, |i: int| 0u32),
    {
        let n = width * height;
        let mut buffer: Vec<u32> = Vec::new();
        let mut i: usize = 0;
        while i < n
            invariant
                i <= n,
                buffer@.len() == i,
                forall|j: int| 0 <= j < i ==> buffer@[j] == 0u32,
            decreases n - i,
        {
            buffer.push(0);
            i = i + 1;
        }
        proof {
            assert(buffer@ =~= Seq::new((width * height) as nat, |i: int| 0u32));
        }
        Framebuffer { width, height, buffer }
    }

    /// Writes the packed `color` at `(x, y)` if the pixel is inside the grid,
    /// and silently does nothing otherwise.
    pub fn set_current_color(&mut self, x: usize, y: usize, color: u32)
        requires
            old(self).well_formed(),
        ensures
            final(self).width == old(self).width,
            final(self).height == old(self).height,
            final(self).well_formed(),
            x < old(self).width && y < old(self).height ==> final(self).buffer@ == old(
                self,
            ).buffer@.update(y * old(self).width + x, color),
            !(x < old(self).width && y < old(self).height) ==> *final(self) == *old(self),
    {
        if x < self.width && y < self.height {
            proof {
                lemma_pixel_index(x as int, y as int, self.width as int, self.height as int);
            }
            let _buffer_len = self.buffer.len();
            let index = y * self.width + x;
            self.buffer[index] = color;
        }
    }

    /// Sets every pixel of the grid to the packed `color`.
    pub fn clear(&mut self, color: u32)
        requires
            old(self).well_formed(),
        ensures
            final(self).width == old(self).width,
            final(self).height == old(self).height,
            final(self).well_formed(),
            final(self).buffer@ == Seq::new(old(self).buffer@.len(), |i: int| color),
    {
        let n = self.buffer.len();
        let mut i: usize = 0;
        while i < n
            invariant
                i <= n,
                self.buffer@.len() == n,
                self.width == old(self).width,
                self.height == old(self).height,
                old(self).well_formed(),
                forall|j: int| 0 <= j < i ==> self.buffer@[j] == color,
                forall|j: int| i <= j < n ==> self.buffer@[j] == old(self).buffer@[j],
            decreases n - i,
        {
            self.buffer[i] = color;
            i = i + 1;
        }
        proof {
            assert(self.buffer@ =~= Seq::new(old(self).buffer@.len(), |i: int| color));
        }
    }

    /// Reads the packed pixel at in-range coordinate `(x, y)`.
    pub fn get_pixel(&self, x: usize, y: usize) -> (p: u32)
        requires
            self.well_formed(),
            x < self.width,
            y < self.height,
        ensures
            p == self.buffer@[y * self.width + x],
    {
        proof {
            lemma_pixel_index(x as int, y as int, self.width as int, self.height as int);
        }
        let _buffer_len = self.buffer.len();
        self.buffer[y * self.width + x]
    }
}

} // verus!
