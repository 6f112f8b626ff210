//! An owned raster surface: a rectangle of colored pixels.
//!
//! The canvas range-checks every write and discards one that falls outside,
//! rather than fault; the rasterizer may therefore hand it any coordinates.
//! Encoding the canvas into an image file is the caller's business.

use vstd::prelude::*;

verus! {

/// One pixel's color.
#[derive(Clone, Copy, Debug, PartialEq, Eq, Structural)]
pub struct Color {
    pub r: u8,
    pub g: u8,
    pub b: u8,
}

/// A rectangle of pixels, stored row-major.
pub struct Canvas {
    width: u32,
    height: u32,
    pixels: Vec<Color>,
}

impl Canvas {
    /// The canvas's storage holds exactly one pixel per coordinate.
    pub closed spec fn wf(&self) -> bool {
        self.pixels@.len() == self.width as int * self.height as int
    }

    /// The canvas width in pixels.
    pub closed spec fn width_spec(&self) -> u32 {
        self.width
    }

    /// The canvas height in pixels.
    pub closed spec fn height_spec(&self) -> u32 {
        self.height
    }

    /// The color at a coordinate inside the canvas.
    pub closed spec fn pixel(&self, x: int, y: int) -> Color {
        self.pixels@[y * self.width as int + x]
    }

    /// A fresh canvas with every pixel set to the background color.
    pub fn new(width: u32, height: u32, background: Color) -> (c: Canvas)
        requires
            width as int * height as int <= usize::MAX as int,
        ensures
            c.wf(),
            c.width_spec() == width,
            c.height_spec() == height,
            forall|x: u32, y: u32|
                x < width && y < height ==> c.pixel(x as int, y as int) == background,
    {
        let total: usize = (width as usize) * (height as usize);
        let mut pixels: Vec<Color> = Vec::new();
        let mut i: usize = 0;
        while i < total
            invariant
                i <= total,
                pixels@.len() == i,
                forall|j: int| 0 <= j < i ==> pixels@[j] == background,
            decreases total - i,
        {
            pixels.push(background);
            i = i + 1;
        }
        let c = Canvas { width, height, pixels };
        proof {
            assert forall|x: u32, y: u32|
                x < width && y < height implies c.pixel(x as int, y as int) == background by {
                assert((y as int) * (width as int) + (x as int) < (width as int) * (height as int))
                    by (nonlinear_arith)
                    requires
                        x < width,
                        y < height,
                ;
                assert(0 <= (y as int) * (width as int) + (x as int)) by (nonlinear_arith);
            }
        }
        c
    }

    /// The canvas width in pixels.
    pub fn width(&self) -> (w: u32)
        ensures
            w == self.width_spec(),
    {
        self.width
    }

    /// The canvas height in pixels.
    pub fn height(&self) -> (h: u32)
        ensures
            h == self.height_spec(),
    {
        self.height
    }

    /// Sets the pixel at `(x, y)` to `color`. A coordinate outside the canvas
    /// is discarded: the canvas is unchanged and nothing faults.
    pub fn put_pixel(&mut self, x: u32, y: u32, color: Color)
        requires
            old(self).wf(),
        ensures
            final(self).wf(),
            final(self).width_spec() == old(self).width_spec(),
            final(self).height_spec() == old(self).height_spec(),
            x < old(self).width_spec() && y < old(self).height_spec() ==> forall|
                px: u32,
                py: u32,
            |
                px < old(self).width_spec() && py < old(self).height_spec()
                    ==> final(self).pixel(px as int, py as int) == (if px == x && py == y {
                    color
                } else {
                    old(self).pixel(px as int, py as int)
                }),
            !(x < old(self).width_spec() && y < old(self).height_spec()) ==> *final(self) == *old(
                self,
            ),
    {
        if x < self.width && y < self.height {
            proof {
                assert((y as int) * (self.width as int) + (x as int) < (self.width as int)
                    * (self.height as int)) by (nonlinear_arith)
                    requires
                        x < self.width,
                        y < self.height,
                ;
                assert(0 <= (y as int) * (self.width as int) + (x as int)) by (nonlinear_arith);
            }
            let n: usize = self.pixels.len();
            let idx: usize = (y as usize) * (self.width as usize) + (x as usize);
            self.pixels[idx] = color;
            proof {
                assert forall|px: u32, py: u32|
                    px < self.width && py < self.height implies self.pixel(px as int, py as int)
                    == (if px == x && py == y {
                    color
                } else {
                    old(self).pixel(px as int, py as int)
                }) by {
                    assert(0 <= (py as int) * (self.width as int) + (px as int) < (
                    self.width as int) * (self.height as int)) by (nonlinear_arith)
                        requires
                            px < self.width,
                            py < self.height,
                    ;
                    lemma_row_major_injective(
                        self.width as int,
                        self.height as int,
                        px as int,
                        py as int,
                        x as int,
                        y as int,
                    );
                }
            }
        }
    }

    /// The color of the pixel at `(x, y)`, which must lie inside the canvas.
    pub fn get_pixel(&self, x: u32, y: u32) -> (color: Color)
        requires
            self.wf(),
            x < self.width_spec(),
            y < self.height_spec(),
        ensures
            color == self.pixel(x as int, y as int),
    {
        proof {
            assert((y as int) * (self.width as int) + (x as int) < (self.width as int)
                * (self.height as int)) by (nonlinear_arith)
                requires
                    x < self.width,
                    y < self.height,
            ;
            assert(0 <= (y as int) * (self.width as int) + (x as int)) by (nonlinear_arith);
        }
        let n: usize = self.pixels.len();
        let idx: usize = (y as usize) * (self.width as usize) + (x as usize);
        self.pixels[idx]
    }
}

/// Two in-range coordinates share a row-major index only when they are the
/// same coordinate.
proof fn lemma_row_major_injective(w: int, h: int, ax: int, ay: int, bx: int, by: int)
    requires
        0 <= ax < w,
        0 <= ay < h,
        0 <= bx < w,
        0 <= by < h,
    ensures
        (ay * w + ax == by * w + bx) <==> (ax == bx && ay == by),
{
    assert((ay * w + ax == by * w + bx) <==> (ax == bx && ay == by)) by (nonlinear_arith)
        requires
            0 <= ax < w,
            0 <= ay < h,
            0 <= bx < w,
            0 <= by < h,
    ;
}

} // verus!
