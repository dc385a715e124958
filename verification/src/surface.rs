//! Stroke surface: a fixed-size raster of RGBA pixels together with the
//! stroke state (whether a stroke is active, and the cursor of the current
//! stroke). Strokes render as line segments of width two, drawn in opaque
//! black on a surface initially filled with opaque white.

use vstd::arithmetic::div_mod::lemma_fundamental_div_mod_converse;
use vstd::prelude::*;

verus! {

/// Largest accepted surface dimension. Keeps the pixel buffer length within
/// 32-bit range and every intermediate of the segment geometry within `i64`.
pub const MAX_DIM: usize = 16384;

/// Channel value of the white background, in every channel.
pub const BACKGROUND: u8 = 255;

/// Half the stroke width: a pixel is covered by a segment when its distance
/// to the segment is at most this radius.
pub const STROKE_RADIUS: usize = 1;

/// Mathematical model of a stroke surface: the raster as a flat byte
/// sequence (four channel bytes per pixel, scan order), and the stroke state.
/// The cursor is meaningful only while `active` is true.
#[verifier::ext_equal]
pub ghost struct SurfaceModel {
    pub width: nat,
    pub height: nat,
    pub pixels: Seq<u8>,
    pub active: bool,
    pub cursor_x: int,
    pub cursor_y: int,
}

impl SurfaceModel {
    /// Well-formedness: dimensions within bounds, the buffer holds exactly
    /// four bytes per pixel, and an active cursor lies on the surface.
    pub open spec fn wf(self) -> bool {
        &&& self.width <= MAX_DIM
        &&& self.height <= MAX_DIM
        &&& self.pixels.len() == 4 * self.width * self.height
        &&& (self.active ==> 0 <= self.cursor_x < self.width && 0 <= self.cursor_y
            < self.height)
    }
}

/// The freshly initialized surface: every channel of every pixel holds the
/// background value, and no stroke is active.
pub open spec fn init_model(width: nat, height: nat) -> SurfaceModel {
    SurfaceModel {
        width,
        height,
        pixels: Seq::new(4 * width * height, |i: int| BACKGROUND),
        active: false,
        cursor_x: 0,
        cursor_y: 0,
    }
}

/// Beginning a stroke records the cursor and activates drawing; it never
/// touches a pixel.
pub open spec fn begin_model(s: SurfaceModel, x: int, y: int) -> SurfaceModel {
    SurfaceModel { active: true, cursor_x: x, cursor_y: y, ..s }
}

/// Ending a stroke deactivates drawing and changes nothing else.
pub open spec fn end_model(s: SurfaceModel) -> SurfaceModel {
    SurfaceModel { active: false, ..s }
}

/// Whether the pixel at `(px, py)` is covered by the width-two segment from
/// `(ax, ay)` to `(bx, by)`: its distance to the segment is at most the
/// stroke radius. Stated with integer arithmetic only: squared distances
/// against the squared radius, and the squared cross product against the
/// squared segment length for the interior region.
pub open spec fn covers(ax: int, ay: int, bx: int, by: int, px: int, py: int) -> bool {
    let dx = bx - ax;
    let dy = by - ay;
    let qx = px - ax;
    let qy = py - ay;
    let rr = STROKE_RADIUS * STROKE_RADIUS;
    if dx == 0 && dy == 0 {
        qx * qx + qy * qy <= rr
    } else {
        let s = qx * dx + qy * dy;
        let dd = dx * dx + dy * dy;
        if s <= 0 {
            qx * qx + qy * qy <= rr
        } else if s >= dd {
            let ux = px - bx;
            let uy = py - by;
            ux * ux + uy * uy <= rr
        } else {
            let cr = dx * qy - dy * qx;
            cr * cr <= rr * dd
        }
    }
}

/// Stroke color byte for channel `c` of a covered pixel: opaque black.
pub open spec fn stroke_byte(c: int) -> u8 {
    if c == 3 {
        255u8
    } else {
        0u8
    }
}

/// Byte `i` of the buffer after the segment from `(ax, ay)` to `(bx, by)` is
/// rendered onto `pixels` (width `w` pixels per row): bytes of covered pixels
/// take the stroke color, all others are unchanged.
pub open spec fn painted_byte(
    pixels: Seq<u8>,
    w: nat,
    ax: int,
    ay: int,
    bx: int,
    by: int,
    i: int,
) -> u8 {
    let p = i / 4;
    let px = p % (w as int);
    let py = p / (w as int);
    if covers(ax, ay, bx, by, px, py) {
        stroke_byte(i % 4)
    } else {
        pixels[i]
    }
}

/// The buffer after the segment from `(ax, ay)` to `(bx, by)` is rendered.
pub open spec fn painted(pixels: Seq<u8>, w: nat, ax: int, ay: int, bx: int, by: int) -> Seq<
    u8,
> {
    Seq::new(pixels.len(), |i: int| painted_byte(pixels, w, ax, ay, bx, by, i))
}

/// Extending a stroke: while a stroke is active, renders the segment from the
/// cursor to `(x, y)` and moves the cursor there; while none is active, the
/// surface is unchanged in every part.
pub open spec fn extend_model(s: SurfaceModel, x: int, y: int) -> SurfaceModel {
    if !s.active {
        s
    } else {
        SurfaceModel {
            pixels: painted(s.pixels, s.width, s.cursor_x, s.cursor_y, x, y),
            cursor_x: x,
            cursor_y: y,
            ..s
        }
    }
}

/// Bound on products of segment-geometry terms, to show the executable
/// coverage test stays within `i64`.
proof fn lemma_mul_bound(a: int, b: int, m: int)
    requires
        m >= 0,
        -m <= a <= m,
        -m <= b <= m,
    ensures
        -(m * m) <= a * b <= m * m,
{
    assert(-(m * m) <= a * b <= m * m) by (nonlinear_arith)
        requires
            m >= 0,
            -m <= a <= m,
            -m <= b <= m,
    ;
}

/// Executable coverage test for one pixel against one segment; decides
/// exactly the `covers` predicate.
fn hit(ax: usize, ay: usize, bx: usize, by: usize, px: usize, py: usize) -> (r: bool)
    requires
        ax <= MAX_DIM,
        ay <= MAX_DIM,
        bx <= MAX_DIM,
        by <= MAX_DIM,
        px <= MAX_DIM,
        py <= MAX_DIM,
    ensures
        r == covers(ax as int, ay as int, bx as int, by as int, px as int, py as int),
{
    let dx: i64 = bx as i64 - ax as i64;
    let dy: i64 = by as i64 - ay as i64;
    let qx: i64 = px as i64 - ax as i64;
    let qy: i64 = py as i64 - ay as i64;
    proof {
        lemma_mul_bound(qx as int, qx as int, MAX_DIM as int);
        lemma_mul_bound(qy as int, qy as int, MAX_DIM as int);
        lemma_mul_bound(dx as int, dx as int, MAX_DIM as int);
        lemma_mul_bound(dy as int, dy as int, MAX_DIM as int);
        lemma_mul_bound(qx as int, dx as int, MAX_DIM as int);
        lemma_mul_bound(qy as int, dy as int, MAX_DIM as int);
        lemma_mul_bound(dx as int, qy as int, MAX_DIM as int);
        lemma_mul_bound(dy as int, qx as int, MAX_DIM as int);
    }
    let r: bool;
    if dx == 0 && dy == 0 {
        r = qx * qx + qy * qy <= 1;
        assert(r == covers(ax as int, ay as int, bx as int, by as int, px as int, py as int));
    } else {
        let s: i64 = qx * dx + qy * dy;
        let dd: i64 = dx * dx + dy * dy;
        if s <= 0 {
            r = qx * qx + qy * qy <= 1;
            assert(r == covers(ax as int, ay as int, bx as int, by as int, px as int, py as int));
        } else if s >= dd {
            let ux: i64 = px as i64 - bx as i64;
            let uy: i64 = py as i64 - by as i64;
            proof {
                lemma_mul_bound(ux as int, ux as int, MAX_DIM as int);
                lemma_mul_bound(uy as int, uy as int, MAX_DIM as int);
            }
            r = ux * ux + uy * uy <= 1;
            assert(r == covers(ax as int, ay as int, bx as int, by as int, px as int, py as int));
        } else {
            let cr: i64 = dx * qy - dy * qx;
            proof {
                assert(-268435456 <= (dx as int) * (qy as int) <= 268435456);
                assert(-268435456 <= (dy as int) * (qx as int) <= 268435456);
                assert(-536870912 <= cr as int <= 536870912);
                lemma_mul_bound(cr as int, cr as int, 536870912);
            }
            r = cr * cr <= dd;
            assert(r == covers(ax as int, ay as int, bx as int, by as int, px as int, py as int));
        }
    }
    r
}

/// A stroke surface: the raster pixel buffer (RGBA, scan order) and the
/// stroke state that governs whether pointer movement renders segments.
pub struct Surface {
    width: usize,
    height: usize,
    pixels: Vec<u8>,
    active: bool,
    cur_x: usize,
    cur_y: usize,
}

impl View for Surface {
    type V = SurfaceModel;

    closed spec fn view(&self) -> SurfaceModel {
        SurfaceModel {
            width: self.width as nat,
            height: self.height as nat,
            pixels: self.pixels@,
            active: self.active,
            cursor_x: self.cur_x as int,
            cursor_y: self.cur_y as int,
        }
    }
}

impl Surface {
    /// Creates a surface of the given dimensions, fully filled with the
    /// opaque white background, with no stroke active.
    pub fn new(width: usize, height: usize) -> (r: Surface)
        requires
            width <= MAX_DIM,
            height <= MAX_DIM,
        ensures
            r@ == init_model(width as nat, height as nat),
            r@.wf(),
    {
        proof {
            assert(0 <= 4 * (width as int) * (height as int) <= 0x40000000) by (nonlinear_arith)
                requires
                    width <= 16384,
                    height <= 16384,
            ;
        }
        let n: usize = 4 * width * height;
        let mut pixels: Vec<u8> = Vec::new();
        while pixels.len() < n
            invariant
                pixels@.len() <= n,
                forall|i: int| 0 <= i < pixels@.len() ==> pixels@[i] == BACKGROUND,
            decreases n - pixels@.len(),
        {
            pixels.push(BACKGROUND);
        }
        let r = Surface { width, height, pixels, active: false, cur_x: 0, cur_y: 0 };
        proof {
            assert(r@.pixels =~= init_model(width as nat, height as nat).pixels);
            assert(r@ =~= init_model(width as nat, height as nat));
        }
        r
    }

    /// The surface width in pixels.
    pub fn width(&self) -> (r: usize)
        ensures
            r == self@.width,
    {
        self.width
    }

    /// The surface height in pixels.
    pub fn height(&self) -> (r: usize)
        ensures
            r == self@.height,
    {
        self.height
    }

    /// The raw pixel buffer: four channel bytes per pixel, scan order.
    pub fn raw_pixels(&self) -> (r: &Vec<u8>)
        ensures
            r@ == self@.pixels,
    {
        &self.pixels
    }

    /// Whether a stroke is currently active.
    pub fn is_active(&self) -> (r: bool)
        ensures
            r == self@.active,
    {
        self.active
    }

    /// The cursor of the current stroke: the start point of the next
    /// segment. Meaningful only while a stroke is active.
    pub fn cursor(&self) -> (r: (usize, usize))
        requires
            self@.active,
        ensures
            r.0 == self@.cursor_x,
            r.1 == self@.cursor_y,
    {
        (self.cur_x, self.cur_y)
    }

    /// Begins a stroke at `(x, y)`: records the cursor and activates drawing.
    /// Valid in any state; beginning again before an end simply resets the
    /// cursor. No pixel changes.
    pub fn begin_stroke(&mut self, x: usize, y: usize)
        requires
            old(self)@.wf(),
            x < old(self)@.width,
            y < old(self)@.height,
        ensures
            final(self)@ == begin_model(old(self)@, x as int, y as int),
            final(self)@.wf(),
    {
        self.active = true;
        self.cur_x = x;
        self.cur_y = y;
        proof {
            assert(self@ =~= begin_model(old(self)@, x as int, y as int));
        }
    }

    /// Ends the current stroke: deactivates drawing and changes nothing
    /// else. Idempotent, and valid in any state.
    pub fn end_stroke(&mut self)
        ensures
            final(self)@ == end_model(old(self)@),
            final(self)@.active == false,
            old(self)@.wf() ==> final(self)@.wf(),
    {
        self.active = false;
        proof {
            assert(self@ =~= end_model(old(self)@));
        }
    }

    /// Extends the current stroke to `(x, y)`. While a stroke is active,
    /// renders the segment from the cursor to `(x, y)` in stroke color and
    /// moves the cursor there; while none is active, this is a silent no-op
    /// by design, since pointer movement is reported regardless of whether a
    /// stroke is in progress.
    #[verifier::loop_isolation(false)]
    pub fn extend_stroke(&mut self, x: usize, y: usize)
        requires
            old(self)@.wf(),
            x < old(self)@.width,
            y < old(self)@.height,
        ensures
            final(self)@ == extend_model(old(self)@, x as int, y as int),
            final(self)@.wf(),
    {
        if !self.active {
            proof {
                assert(self@ =~= extend_model(old(self)@, x as int, y as int));
            }
            return ;
        }
        let ax = self.cur_x;
        let ay = self.cur_y;
        let w = self.width;
        let h = self.height;
        proof {
            assert((w as int) * (h as int) <= 0x10000000 && 4 * (w as int) * (h as int) == 4 * (
            (w as int) * (h as int))) by (nonlinear_arith)
                requires
                    w <= 16384,
                    h <= 16384,
            ;
        }
        let n: usize = w * h;
        let ghost orig = old(self)@.pixels;
        proof {
            assert(orig.len() == 4 * n);
        }
        let mut p: usize = 0;
        while p < n
            invariant
                p <= n,
                self.pixels@.len() == orig.len(),
                self.width == old(self).width,
                self.height == old(self).height,
                self.active == old(self).active,
                self.cur_x == old(self).cur_x,
                self.cur_y == old(self).cur_y,
                forall|i: int|
                    0 <= i < 4 * p ==> self.pixels@[i] == painted_byte(
                        orig,
                        w as nat,
                        ax as int,
                        ay as int,
                        x as int,
                        y as int,
                        i,
                    ),
                forall|i: int| 4 * p <= i < orig.len() ==> self.pixels@[i] == orig[i],
            decreases n - p,
        {
            proof {
                assert(w > 0 && h > 0) by (nonlinear_arith)
                    requires
                        n == (w as int) * (h as int),
                        n > 0,
                ;
            }
            let px = p % w;
            let py = p / w;
            proof {
                vstd::arithmetic::div_mod::lemma_fundamental_div_mod(p as int, w as int);
                vstd::arithmetic::div_mod::lemma_mod_division_less_than_divisor(
                    p as int,
                    w as int,
                );
                assert((py as int) < h as int) by (nonlinear_arith)
                    requires
                        (p as int) < (w as int) * (h as int),
                        (p as int) == (w as int) * (py as int) + (px as int),
                        0 <= (px as int) < (w as int),
                        (w as int) > 0,
                        0 <= py as int,
                ;
            }
            let base: usize = 4 * p;
            if hit(ax, ay, x, y, px, py) {
                self.pixels.set(base, 0);
                self.pixels.set(base + 1, 0);
                self.pixels.set(base + 2, 0);
                self.pixels.set(base + 3, 255);
            }
            proof {
                let pi = p as int;
                lemma_fundamental_div_mod_converse(4 * pi + 0, 4, pi, 0);
                lemma_fundamental_div_mod_converse(4 * pi + 1, 4, pi, 1);
                lemma_fundamental_div_mod_converse(4 * pi + 2, 4, pi, 2);
                lemma_fundamental_div_mod_converse(4 * pi + 3, 4, pi, 3);
            }
            p = p + 1;
        }
        self.cur_x = x;
        self.cur_y = y;
        proof {
            assert(self@.pixels =~= painted(
                orig,
                old(self)@.width,
                old(self)@.cursor_x,
                old(self)@.cursor_y,
                x as int,
                y as int,
            ));
            assert(self@ =~= extend_model(old(self)@, x as int, y as int));
        }
    }
}

} // verus!
