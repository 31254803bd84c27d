//! A grid of pixels that a frame is drawn into.

use vstd::prelude::*;
use crate::color::{black, Color};

verus! {

/// What a framebuffer holds: its dimensions, the colour that clearing
/// writes, and the pixels row by row from the top.
pub struct Frame {
    pub width: nat,
    pub height: nat,
    pub background: Color,
    pub pixels: Seq<Color>,
}

impl Frame {
    /// There is one pixel for each position of the grid.
    pub open spec fn well_formed(self) -> bool {
        self.pixels.len() == self.width * self.height
    }

    pub open spec fn in_bounds(self, x: int, y: int) -> bool {
        0 <= x < self.width && 0 <= y < self.height
    }

    /// Place of pixel `(x, y)` in `pixels`.
    pub open spec fn offset(self, x: int, y: int) -> int {
        y * self.width + x
    }

    /// Colour of the pixel in column `x` of row `y`.
    pub open spec fn pixel(self, x: int, y: int) -> Color {
        self.pixels[self.offset(x, y)]
    }

    /// The frame with pixel `(x, y)` set to `color`.
    pub open spec fn with_pixel(self, x: int, y: int, color: Color) -> Frame {
        Frame { pixels: self.pixels.update(self.offset(x, y), color), ..self }
    }

    /// The frame with every pixel set to the background colour.
    pub open spec fn cleared(self) -> Frame {
        Frame { pixels: Seq::new(self.pixels.len(), |i: int| self.background), ..self }
    }

    /// Positions within bounds have offsets within `pixels`, and distinct
    /// positions have distinct offsets.
    pub proof fn offsets_are_distinct(self, x1: int, y1: int, x2: int, y2: int)
        requires
            self.well_formed(),
            self.in_bounds(x1, y1),
            self.in_bounds(x2, y2),
        ensures
            0 <= self.offset(x1, y1) < self.pixels.len(),
            self.offset(x1, y1) == self.offset(x2, y2) ==> x1 == x2 && y1 == y2,
    {
        lemma_offset(x1, y1, x2, y2, self.width as int, self.height as int);
    }

    /// Setting one pixel changes that pixel and no other.
    pub proof fn with_pixel_changes_one(self, x: int, y: int, color: Color, x2: int, y2: int)
        requires
            self.well_formed(),
            self.in_bounds(x, y),
            self.in_bounds(x2, y2),
        ensures
            self.with_pixel(x, y, color).well_formed(),
            self.with_pixel(x, y, color).pixel(x2, y2) == if x2 == x && y2 == y {
                color
            } else {
                self.pixel(x2, y2)
            },
    {
        self.offsets_are_distinct(x, y, x2, y2);
        self.offsets_are_distinct(x2, y2, x, y);
    }
}

proof fn lemma_offset(x1: int, y1: int, x2: int, y2: int, w: int, h: int)
    by (nonlinear_arith)
    requires
        0 <= x1 < w,
        0 <= y1 < h,
        0 <= x2 < w,
        0 <= y2 < h,
    ensures
        0 <= y1 * w + x1 < w * h,
        y1 * w + x1 == y2 * w + x2 ==> x1 == x2 && y1 == y2,
{
    assert(y1 * w + x1 < w * h) by {
        assert((y1 + 1) * w <= h * w);
        assert((y1 + 1) * w == y1 * w + w);
        assert(h * w == w * h);
    }
    if y1 < y2 {
        assert((y1 + 1) * w <= y2 * w);
        assert((y1 + 1) * w == y1 * w + w);
    }
    if y2 < y1 {
        assert((y2 + 1) * w <= y1 * w);
        assert((y2 + 1) * w == y2 * w + w);
    }
}

proof fn lemma_offset_fits(x: int, y: int, w: int)
    by (nonlinear_arith)
    requires
        0 <= x <= 0xffff,
        0 <= y <= 0xffff,
        0 <= w <= 0xffff,
    ensures
        0 <= y * w <= 0xfffe_0001,
        0 <= y * w + x <= 0xffff_0000,
{
}

/// A vector of `count` copies of `color`.
fn filled(color: Color, count: usize) -> (pixels: Vec<Color>)
    ensures
        pixels@ == Seq::new(count as nat, |i: int| color),
{
    let mut pixels: Vec<Color> = Vec::new();
    while pixels.len() < count
        invariant
            pixels@.len() <= count,
            forall|i: int| 0 <= i < pixels@.len() ==> pixels@[i] == color,
        decreases count - pixels@.len(),
    {
        pixels.push(color);
    }
    assert(pixels@ =~= Seq::new(count as nat, |i: int| color));
    pixels
}

/// A pixel grid of up to 65535 by 65535 pixels.
pub struct Framebuffer {
    width: u16,
    height: u16,
    background: Color,
    pixels: Vec<Color>,
}

impl View for Framebuffer {
    type V = Frame;

    closed spec fn view(&self) -> Frame {
        Frame {
            width: self.width as nat,
            height: self.height as nat,
            background: self.background,
            pixels: self.pixels@,
        }
    }
}

impl Framebuffer {
    #[verifier::type_invariant]
    spec fn one_pixel_per_position(&self) -> bool {
        self.pixels@.len() == self.width as nat * self.height as nat
    }

    /// A black frame with black as its background colour.
    pub fn new(width: u16, height: u16) -> (framebuffer: Framebuffer)
        ensures
            framebuffer@ == (Frame {
                width: width as nat,
                height: height as nat,
                background: black(),
                pixels: Seq::new(width as nat * height as nat, |i: int| black()),
            }),
    {
        let color = Color { r: 0, g: 0, b: 0, a: 255 };
        assert(width * height <= 0xffff * 0xffff) by (nonlinear_arith)
            requires
                0 <= width <= 0xffff,
                0 <= height <= 0xffff,
        ;
        let count: usize = (width as usize) * (height as usize);
        Framebuffer { width, height, background: color, pixels: filled(color, count) }
    }

    /// Number of columns. Like every function that reads the framebuffer, it
    /// also reports that the frame held is well formed.
    pub fn width(&self) -> (width: u16)
        ensures
            width == self@.width,
            self@.well_formed(),
    {
        proof {
            use_type_invariant(self);
        }
        self.width
    }

    /// Number of rows.
    pub fn height(&self) -> (height: u16)
        ensures
            height == self@.height,
            self@.well_formed(),
    {
        proof {
            use_type_invariant(self);
        }
        self.height
    }

    /// Chooses the colour that `clear` writes; no pixel changes.
    pub fn set_background_color(&mut self, color: Color)
        ensures
            final(self)@ == (Frame { background: color, ..old(self)@ }),
    {
        proof {
            use_type_invariant(&*self);
        }
        self.background = color;
    }

    /// Sets every pixel to the background colour.
    pub fn clear(&mut self)
        ensures
            final(self)@ == old(self)@.cleared(),
    {
        proof {
            use_type_invariant(&*self);
        }
        let count: usize = self.pixels.len();
        self.pixels = filled(self.background, count);
    }

    /// Writes `color` at column `x` of row `y`. A position outside the grid
    /// is ignored.
    pub fn set_pixel(&mut self, x: u16, y: u16, color: Color)
        ensures
            old(self)@.in_bounds(x as int, y as int) ==> final(self)@ == old(self)@.with_pixel(
                x as int,
                y as int,
                color,
            ),
            !old(self)@.in_bounds(x as int, y as int) ==> final(self)@ == old(self)@,
            old(self)@.well_formed(),
            final(self)@.well_formed(),
    {
        proof {
            use_type_invariant(&*self);
        }
        if x < self.width && y < self.height {
            proof {
                self@.offsets_are_distinct(x as int, y as int, x as int, y as int);
                lemma_offset_fits(x as int, y as int, self.width as int);
            }
            let offset: usize = (y as usize) * (self.width as usize) + (x as usize);
            self.pixels[offset] = color;
        }
    }

    /// Reads the pixel at column `x` of row `y`, if the grid has one there.
    pub fn get_pixel(&self, x: u16, y: u16) -> (color: Option<Color>)
        ensures
            color == if self@.in_bounds(x as int, y as int) {
                Some(self@.pixel(x as int, y as int))
            } else {
                None
            },
            self@.well_formed(),
    {
        proof {
            use_type_invariant(self);
        }
        if x < self.width && y < self.height {
            proof {
                self@.offsets_are_distinct(x as int, y as int, x as int, y as int);
                lemma_offset_fits(x as int, y as int, self.width as int);
            }
            let offset: usize = (y as usize) * (self.width as usize) + (x as usize);
            Some(self.pixels[offset])
        } else {
            None
        }
    }
}

} // verus!
