//! A simple 1-bit in-memory framebuffer used for the host (PNG) render path.
//!
//! Drawing goes through [`Canvas::set_pixel`], exactly as into the e-paper
//! display buffer, so the same layout feeds both.

use vstd::prelude::*;

verus! {

pub struct Canvas {
    width: u32,
    height: u32,
    /// One entry per pixel, row by row; `true` means black (foreground / "on").
    pixels: Vec<bool>,
}

/// What a canvas holds: its size and its pixels, row by row.
pub struct CanvasView {
    pub width: nat,
    pub height: nat,
    pub pixels: Seq<bool>,
}

/// Whether `(x, y)` lies on a canvas of the given size.
pub open spec fn in_bounds(v: CanvasView, x: int, y: int) -> bool {
    0 <= x < v.width && 0 <= y < v.height
}

/// The pixel at `(x, y)`; everything off the canvas reads as white.
pub open spec fn pixel_on(v: CanvasView, x: int, y: int) -> bool {
    if in_bounds(v, x, y) {
        v.pixels[y * v.width + x]
    } else {
        false
    }
}

/// The canvas after setting the pixel at `(x, y)`; writes off the canvas are
/// ignored.
pub open spec fn with_pixel(v: CanvasView, x: int, y: int, on: bool) -> CanvasView {
    if in_bounds(v, x, y) {
        CanvasView { width: v.width, height: v.height, pixels: v.pixels.update(y * v.width + x, on) }
    } else {
        v
    }
}

/// The canvas after setting each of `pixels` in turn: `(x, y, on)`.
pub open spec fn with_pixels(v: CanvasView, pixels: Seq<(i32, i32, bool)>) -> CanvasView
    decreases pixels.len(),
{
    if pixels.len() == 0 {
        v
    } else {
        let (x, y, on) = pixels.last();
        with_pixel(with_pixels(v, pixels.drop_last()), x as int, y as int, on)
    }
}

/// The value of the last of `pixels` at `(qx, qy)`, if any is there.
pub open spec fn last_write(pixels: Seq<(i32, i32, bool)>, qx: int, qy: int) -> Option<bool>
    decreases pixels.len(),
{
    if pixels.len() == 0 {
        None
    } else if pixels.last().0 == qx && pixels.last().1 == qy {
        Some(pixels.last().2)
    } else {
        last_write(pixels.drop_last(), qx, qy)
    }
}

impl View for Canvas {
    type V = CanvasView;

    closed spec fn view(&self) -> CanvasView {
        CanvasView { width: self.width as nat, height: self.height as nat, pixels: self.pixels@ }
    }
}

proof fn lemma_index_in_range(x: int, y: int, w: int, h: int)
    requires
        0 <= x < w,
        0 <= y < h,
    ensures
        0 <= y * w + x < w * h,
{
    assert(y * w + x < w * h) by (nonlinear_arith)
        requires
            0 <= x < w,
            0 <= y < h,
    ;
    assert(0 <= y * w) by (nonlinear_arith)
        requires
            0 <= y,
            0 <= w,
    ;
}

impl Canvas {
    /// The pixel buffer holds exactly one entry per pixel.
    pub closed spec fn well_formed(self) -> bool {
        &&& self.width * self.height <= u32::MAX
        &&& self.pixels@.len() == self.width * self.height
    }

    /// A well-formed canvas holds exactly one pixel per position.
    pub proof fn lemma_pixel_count(&self)
        requires
            self.well_formed(),
        ensures
            self@.pixels.len() == self@.width * self@.height,
    {
    }

    /// Create a white canvas of the given size.
    pub fn new(width: u32, height: u32) -> (r: Self)
        requires
            width * height <= u32::MAX,
        ensures
            r.well_formed(),
            r@.width == width,
            r@.height == height,
            r@.pixels.len() == width * height,
            forall|x: int, y: int| !#[trigger] pixel_on(r@, x, y),
    {
        let n = (width * height) as usize;
        let mut pixels: Vec<bool> = Vec::new();
        for i in 0..n
            invariant
                pixels@.len() == i,
                forall|k: int| 0 <= k < i ==> !#[trigger] pixels@[k],
        {
            pixels.push(false);
        }
        let r = Canvas { width, height, pixels };
        assert forall|x: int, y: int| !#[trigger] pixel_on(r@, x, y) by {
            if in_bounds(r@, x, y) {
                lemma_index_in_range(x, y, width as int, height as int);
            }
        }
        r
    }

    pub fn width(&self) -> (r: u32)
        requires
            self.well_formed(),
        ensures
            r == self@.width,
    {
        self.width
    }

    pub fn height(&self) -> (r: u32)
        requires
            self.well_formed(),
        ensures
            r == self@.height,
    {
        self.height
    }

    /// Whether the pixel is foreground (black). Out-of-bounds reads as white.
    pub fn is_on(&self, x: u32, y: u32) -> (r: bool)
        requires
            self.well_formed(),
        ensures
            r == pixel_on(self@, x as int, y as int),
    {
        if x >= self.width || y >= self.height {
            return false;
        }
        proof {
            lemma_index_in_range(x as int, y as int, self.width as int, self.height as int);
        }
        self.pixels[(y * self.width + x) as usize]
    }

    /// Set one pixel, as a draw target does for each pixel it is handed;
    /// coordinates off the canvas are ignored.
    pub fn set_pixel(&mut self, x: i32, y: i32, on: bool)
        requires
            old(self).well_formed(),
        ensures
            final(self).well_formed(),
            final(self)@ == with_pixel(old(self)@, x as int, y as int, on),
    {
        if x < 0 || y < 0 {
            return;
        }
        let (xu, yu) = (x as u32, y as u32);
        if xu >= self.width || yu >= self.height {
            return;
        }
        proof {
            lemma_index_in_range(xu as int, yu as int, self.width as int, self.height as int);
        }
        let index = (yu * self.width + xu) as usize;
        self.pixels.set(index, on);
    }

    /// Set each of `pixels` in turn (`(x, y, on)`), as a draw target does with
    /// the pixels it is handed; those off the canvas are ignored.
    pub fn draw_pixels(&mut self, pixels: &Vec<(i32, i32, bool)>)
        requires
            old(self).well_formed(),
        ensures
            final(self).well_formed(),
            final(self)@ == with_pixels(old(self)@, pixels@),
    {
        for i in 0..pixels.len()
            invariant
                self.well_formed(),
                self@ == with_pixels(old(self)@, pixels@.take(i as int)),
        {
            let (x, y, on) = pixels[i];
            self.set_pixel(x, y, on);
            assert(pixels@.take(i + 1).drop_last() =~= pixels@.take(i as int));
        }
        assert(pixels@.take(pixels@.len() as int) =~= pixels@);
    }

    /// The grayscale PNG samples of the framebuffer, row by row: 0 (black) for
    /// a pixel that is on, 255 (white) otherwise.
    pub fn gray_pixels(&self) -> (r: Vec<u8>)
        requires
            self.well_formed(),
        ensures
            r@.len() == self@.pixels.len(),
            forall|i: int|
                0 <= i < r@.len() ==> #[trigger] r@[i] == if self@.pixels[i] {
                    0u8
                } else {
                    255u8
                },
    {
        let mut out: Vec<u8> = Vec::new();
        for i in 0..self.pixels.len()
            invariant
                out@.len() == i,
                forall|k: int|
                    0 <= k < i ==> #[trigger] out@[k] == if self.pixels@[k] {
                        0u8
                    } else {
                        255u8
                    },
        {
            out.push(if self.pixels[i] { 0 } else { 255 });
        }
        out
    }
}

/// Drawing a sequence of pixels keeps the size, and each pixel on the canvas
/// reads as the last write to it, or as before when none was written there
/// (writes off the canvas are ignored).
pub proof fn law_last_write_wins(v: CanvasView, pixels: Seq<(i32, i32, bool)>, qx: int, qy: int)
    requires
        v.pixels.len() == v.width * v.height,
    ensures
        with_pixels(v, pixels).width == v.width,
        with_pixels(v, pixels).height == v.height,
        with_pixels(v, pixels).pixels.len() == v.pixels.len(),
        pixel_on(with_pixels(v, pixels), qx, qy) == if in_bounds(v, qx, qy) && last_write(pixels, qx, qy) is Some {
            last_write(pixels, qx, qy)->0
        } else {
            pixel_on(v, qx, qy)
        },
    decreases pixels.len(),
{
    if pixels.len() > 0 {
        let prev = pixels.drop_last();
        law_last_write_wins(v, prev, qx, qy);
        let (x, y, on) = pixels.last();
        if in_bounds(v, x as int, y as int) {
            lemma_index_in_range(x as int, y as int, v.width as int, v.height as int);
        }
        law_set_then_read(with_pixels(v, prev), x as int, y as int, on, qx, qy);
    }
}

/// Drawing a sequence of pixels onto any canvas (as `draw_pixels` does) keeps
/// its size, and each pixel on it reads as the last write to it, or as before
/// when none was written there; writes off the canvas are ignored.
pub proof fn law_canvas_last_write_wins(c: &Canvas, pixels: Seq<(i32, i32, bool)>, qx: int, qy: int)
    requires
        c.well_formed(),
    ensures
        with_pixels(c@, pixels).width == c@.width,
        with_pixels(c@, pixels).height == c@.height,
        pixel_on(with_pixels(c@, pixels), qx, qy) == if in_bounds(c@, qx, qy) && last_write(pixels, qx, qy) is Some {
            last_write(pixels, qx, qy)->0
        } else {
            pixel_on(c@, qx, qy)
        },
{
    c.lemma_pixel_count();
    law_last_write_wins(c@, pixels, qx, qy);
}

/// A pixel that was set reads back as set; every other pixel keeps its value;
/// writes off the canvas change nothing.
pub proof fn law_set_then_read(v: CanvasView, x: int, y: int, on: bool, qx: int, qy: int)
    requires
        v.pixels.len() == v.width * v.height,
    ensures
        pixel_on(with_pixel(v, x, y, on), qx, qy) == if qx == x && qy == y && in_bounds(v, x, y) {
            on
        } else {
            pixel_on(v, qx, qy)
        },
{
    if in_bounds(v, x, y) && in_bounds(v, qx, qy) {
        lemma_index_in_range(x, y, v.width as int, v.height as int);
        lemma_index_in_range(qx, qy, v.width as int, v.height as int);
        if qx != x || qy != y {
            if qy == y {
            } else {
                assert(qy * v.width + qx != y * v.width + x) by (nonlinear_arith)
                    requires
                        qy != y,
                        0 <= qx < v.width,
                        0 <= x < v.width,
                ;
            }
        }
    }
}

} // verus!
