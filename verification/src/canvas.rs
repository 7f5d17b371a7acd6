//! Offscreen canvas: a fixed 800x480 image with three bytes per pixel,
//! allocated once and mutated in place.  Pixel writes are bounds-checked and
//! silently dropped outside the canvas.  Within one pixel the bytes are
//! stored in the order the camera frames deliver them and the presenter
//! reads them back, channel for channel.

use vstd::prelude::*;

use crate::decode::DecodedFrame;
use crate::decode::frame_px;

verus! {

pub const CANVAS_W: usize = 800;

pub const CANVAS_H: usize = 480;

pub const CANVAS_BYTES: usize = 800 * 480 * 3;

/// One sRGB888 colour.
#[derive(Clone, Copy, Debug, PartialEq, Eq, Structural)]
pub struct Rgb {
    pub r: u8,
    pub g: u8,
    pub b: u8,
}

impl Rgb {
    pub fn new(r: u8, g: u8, b: u8) -> (c: Rgb)
        ensures
            c == (Rgb { r, g, b }),
    {
        Rgb { r, g, b }
    }

    /// The colour as the tuple the canvas stores.
    pub open spec fn tup(self) -> (u8, u8, u8) {
        (self.r, self.g, self.b)
    }
}

/// Whether (x, y) lies on the canvas.
pub open spec fn in_canvas(x: int, y: int) -> bool {
    0 <= x < 800 && 0 <= y < 480
}

/// The byte index of the first channel of pixel (x, y).
pub open spec fn px_index(x: int, y: int) -> int {
    3 * (y * 800 + x)
}

/// The three channel bytes of pixel (x, y) in a canvas byte sequence.
pub open spec fn pixel_at(s: Seq<u8>, x: int, y: int) -> (u8, u8, u8) {
    (s[px_index(x, y)], s[px_index(x, y) + 1], s[px_index(x, y) + 2])
}

/// Distinct on-canvas pixels own disjoint byte ranges: their start indices
/// are at least three bytes apart.
pub proof fn lemma_px_index_sep(x1: int, y1: int, x2: int, y2: int)
    requires
        in_canvas(x1, y1),
        in_canvas(x2, y2),
        (x1, y1) != (x2, y2),
    ensures
        px_index(x1, y1) + 3 <= px_index(x2, y2) || px_index(x2, y2) + 3 <= px_index(x1, y1),
{
    if y1 == y2 {
        assert(x1 != x2);
    } else if y1 < y2 {
        assert(y1 * 800 + x1 < (y1 + 1) * 800 <= y2 * 800 + x2);
    } else {
        assert(y2 * 800 + x2 < (y2 + 1) * 800 <= y1 * 800 + x1);
    }
}

/// The byte sequence after one pixel write: the three channels of (x, y)
/// replaced by the colour.
pub open spec fn with_pixel(s: Seq<u8>, x: int, y: int, c: Rgb) -> Seq<u8> {
    s.update(px_index(x, y), c.r).update(px_index(x, y) + 1, c.g).update(px_index(x, y) + 2, c.b)
}

/// One pixel write changes that pixel to the colour and no other pixel.
pub proof fn lemma_with_pixel(s: Seq<u8>, x: int, y: int, c: Rgb)
    requires
        s.len() == 800 * 480 * 3,
        in_canvas(x, y),
    ensures
        with_pixel(s, x, y, c).len() == s.len(),
        pixel_at(with_pixel(s, x, y, c), x, y) == c.tup(),
        forall|x2: int, y2: int|
            in_canvas(x2, y2) && (x2, y2) != (x, y) ==> #[trigger] pixel_at(
                with_pixel(s, x, y, c),
                x2,
                y2,
            ) == pixel_at(s, x2, y2),
{
    assert(0 <= px_index(x, y) && px_index(x, y) + 2 < s.len());
    assert forall|x2: int, y2: int|
        in_canvas(x2, y2) && (x2, y2) != (x, y) implies #[trigger] pixel_at(
        with_pixel(s, x, y, c),
        x2,
        y2,
    ) == pixel_at(s, x2, y2) by {
        lemma_px_index_sep(x, y, x2, y2);
    }
}

/// The fixed 800x480 canvas.
pub struct Canvas {
    data: Vec<u8>,
}

impl View for Canvas {
    type V = Seq<u8>;

    closed spec fn view(&self) -> Seq<u8> {
        self.data@
    }
}

impl Canvas {
    /// The canvas always holds exactly its 800 * 480 * 3 bytes.
    pub open spec fn wf(&self) -> bool {
        self@.len() == 800 * 480 * 3
    }

    /// A fresh canvas: every byte zero (black).
    pub fn new() -> (c: Canvas)
        ensures
            c.wf(),
            forall|i: int| 0 <= i < 800 * 480 * 3 ==> c@[i] == 0u8,
    {
        let mut data: Vec<u8> = Vec::new();
        let mut i: usize = 0;
        while i < CANVAS_BYTES
            invariant
                i <= CANVAS_BYTES,
                data@.len() == i,
                forall|j: int| 0 <= j < i ==> data@[j] == 0u8,
            decreases CANVAS_BYTES - i,
        {
            data.push(0u8);
            i = i + 1;
        }
        Canvas { data }
    }

    /// A read-only view of the canvas bytes, row-major, three bytes per
    /// pixel.
    pub fn data(&self) -> (d: &Vec<u8>)
        ensures
            d@ == self@,
    {
        &self.data
    }

    /// Reads one pixel.
    pub fn get_pixel(&self, x: usize, y: usize) -> (c: (u8, u8, u8))
        requires
            self.wf(),
            x < 800,
            y < 480,
        ensures
            c == pixel_at(self@, x as int, y as int),
    {
        let idx: usize = 3 * (y * 800 + x);
        (self.data[idx], self.data[idx + 1], self.data[idx + 2])
    }

    /// Writes one pixel, silently dropping writes that fall outside the
    /// canvas: off-canvas coordinates leave every byte unchanged.
    pub fn set_pixel(&mut self, x: i32, y: i32, c: Rgb)
        requires
            old(self).wf(),
        ensures
            final(self).wf(),
            in_canvas(x as int, y as int) ==> final(self)@ == with_pixel(
                old(self)@,
                x as int,
                y as int,
                c,
            ),
            !in_canvas(x as int, y as int) ==> final(self)@ == old(self)@,
    {
        if 0 <= x && x < 800 && 0 <= y && y < 480 {
            let xi: usize = x as usize;
            let yi: usize = y as usize;
            let idx: usize = 3 * (yi * 800 + xi);
            self.data[idx] = c.r;
            self.data[idx + 1] = c.g;
            self.data[idx + 2] = c.b;
        }
    }

    /// Fills the rectangle with origin (x0, y0) and the given size, clipped
    /// to the canvas; every other pixel is untouched.
    pub fn fill_rect(&mut self, x0: i32, y0: i32, w: u32, h: u32, c: Rgb)
        requires
            old(self).wf(),
        ensures
            final(self).wf(),
            forall|x: int, y: int|
                in_canvas(x, y) ==> #[trigger] pixel_at(final(self)@, x, y) == (if x0 <= x < x0 + w
                    && y0 <= y < y0 + h {
                    c.tup()
                } else {
                    pixel_at(old(self)@, x, y)
                }),
    {
        let ys: usize = clamp_coord(y0, CANVAS_H);
        let ye: usize = clamp_reach(y0, h, CANVAS_H);
        let xs: usize = clamp_coord(x0, CANVAS_W);
        let xe: usize = clamp_reach(x0, w, CANVAS_W);
        let mut yy: usize = ys;
        while yy < ye
            invariant
                self.wf(),
                ys <= yy <= ye,
                ye <= 480,
                xs <= xe <= 800,
                xs as int == clamp_spec(x0 as int, 800),
                xe as int == clamp_spec(x0 + w, 800),
                ys as int == clamp_spec(y0 as int, 480),
                ye as int == clamp_spec(y0 + h, 480),
                forall|x: int, y: int|
                    in_canvas(x, y) ==> #[trigger] pixel_at(self@, x, y) == (if x0 <= x < x0 + w
                        && y0 <= y < y0 + h && y < yy {
                        c.tup()
                    } else {
                        pixel_at(old(self)@, x, y)
                    }),
            decreases ye - yy,
        {
            let mut xx: usize = xs;
            while xx < xe
                invariant
                    self.wf(),
                    ys <= yy < ye,
                    ye <= 480,
                    xs <= xx <= xe,
                    xe <= 800,
                    xs as int == clamp_spec(x0 as int, 800),
                    xe as int == clamp_spec(x0 + w, 800),
                    ys as int == clamp_spec(y0 as int, 480),
                    ye as int == clamp_spec(y0 + h, 480),
                    forall|x: int, y: int|
                        in_canvas(x, y) ==> #[trigger] pixel_at(self@, x, y) == (if x0 <= x < x0 + w
                            && y0 <= y < y0 + h && (y < yy || (y == yy && x < xx)) {
                            c.tup()
                        } else {
                            pixel_at(old(self)@, x, y)
                        }),
                decreases xe - xx,
            {
                let ghost pre = self@;
                self.set_pixel(xx as i32, yy as i32, c);
                proof {
                    lemma_with_pixel(pre, xx as int, yy as int, c);
                }
                xx = xx + 1;
            }
            yy = yy + 1;
        }
    }

    /// Copies a decoded camera frame onto the canvas at (0, 0): every pixel
    /// covered by both the frame and the canvas takes the frame's channel
    /// bytes unchanged; every other pixel is untouched.
    pub fn blit_frame(&mut self, frame: &DecodedFrame)
        requires
            old(self).wf(),
            frame.wf(),
        ensures
            final(self).wf(),
            forall|x: int, y: int|
                in_canvas(x, y) ==> #[trigger] pixel_at(final(self)@, x, y) == (if x < frame.width
                    && y < frame.height {
                    frame_px(*frame, x, y)
                } else {
                    pixel_at(old(self)@, x, y)
                }),
    {
        let h: usize = if frame.height < CANVAS_H {
            frame.height
        } else {
            CANVAS_H
        };
        let w: usize = if frame.width < CANVAS_W {
            frame.width
        } else {
            CANVAS_W
        };
        let mut yy: usize = 0;
        while yy < h
            invariant
                self.wf(),
                frame.wf(),
                yy <= h,
                h <= 480,
                h <= frame.height,
                w <= 800,
                w <= frame.width,
                frame.height > h ==> h == 480,
                frame.width > w ==> w == 800,
                forall|x: int, y: int|
                    in_canvas(x, y) ==> #[trigger] pixel_at(self@, x, y) == (if x < w && y < yy {
                        frame_px(*frame, x, y)
                    } else {
                        pixel_at(old(self)@, x, y)
                    }),
            decreases h - yy,
        {
            let mut xx: usize = 0;
            while xx < w
                invariant
                    self.wf(),
                    frame.wf(),
                    yy < h,
                    h <= 480,
                    h <= frame.height,
                    xx <= w,
                    w <= 800,
                    w <= frame.width,
                    forall|x: int, y: int|
                        in_canvas(x, y) ==> #[trigger] pixel_at(self@, x, y) == (if (x < w && y
                            < yy) || (y == yy && x < xx) {
                            frame_px(*frame, x, y)
                        } else {
                            pixel_at(old(self)@, x, y)
                        }),
                decreases w - xx,
            {
                proof {
                    assert(frame.pixels@.len() <= usize::MAX) by {
                        assert(frame.pixels.len() == frame.pixels@.len());
                    }
                    assert(0 <= yy * frame.width && yy * frame.width <= yy * frame.width + xx && 3
                        * (yy * frame.width + xx) + 2 < frame.pixels@.len())
                        by (nonlinear_arith)
                        requires
                            yy < frame.height,
                            xx < frame.width,
                            frame.pixels@.len() == frame.width * frame.height * 3,
                    ;
                }
                let idx: usize = 3 * (yy * frame.width + xx);
                let r: u8 = frame.pixels[idx];
                let g: u8 = frame.pixels[idx + 1];
                let b: u8 = frame.pixels[idx + 2];
                let ghost pre = self@;
                self.set_pixel(xx as i32, yy as i32, Rgb { r, g, b });
                proof {
                    lemma_with_pixel(pre, xx as int, yy as int, Rgb { r, g, b });
                    assert(pixel_at(self@, xx as int, yy as int) == frame_px(
                        *frame,
                        xx as int,
                        yy as int,
                    ));
                }
                xx = xx + 1;
            }
            yy = yy + 1;
        }
    }
}

/// The clamp of `v` into [0, hi].
pub open spec fn clamp_spec(v: int, hi: int) -> int {
    if v < 0 {
        0
    } else if v > hi {
        hi
    } else {
        v
    }
}

/// Clamps a possibly negative coordinate into [0, hi].
fn clamp_coord(v: i32, hi: usize) -> (out: usize)
    requires
        hi <= 800,
    ensures
        out as int == clamp_spec(v as int, hi as int),
{
    if v < 0 {
        0
    } else if v as usize > hi {
        hi
    } else {
        v as usize
    }
}

/// Clamps the end coordinate `v + extent` into [0, hi].
fn clamp_reach(v: i32, extent: u32, hi: usize) -> (out: usize)
    requires
        hi <= 800,
    ensures
        out as int == clamp_spec(v as int + extent as int, hi as int),
{
    let reach: i64 = v as i64 + extent as i64;
    if reach < 0 {
        0
    } else if reach > hi as i64 {
        hi
    } else {
        reach as usize
    }
}

/// The smaller of two integers.
pub open spec fn imin(a: int, b: int) -> int {
    if a <= b {
        a
    } else {
        b
    }
}

/// The larger of two integers.
pub open spec fn imax(a: int, b: int) -> int {
    if a >= b {
        a
    } else {
        b
    }
}

/// (x, y) lies in the axis-aligned bounding box of the two points.
pub open spec fn in_bbox(x0: int, y0: int, x1: int, y1: int, x: int, y: int) -> bool {
    imin(x0, x1) <= x <= imax(x0, x1) && imin(y0, y1) <= y <= imax(y0, y1)
}

/// (x, y) lies in the axis-aligned bounding box of the three points.
pub open spec fn in_bbox3(
    x0: int,
    y0: int,
    x1: int,
    y1: int,
    x2: int,
    y2: int,
    x: int,
    y: int,
) -> bool {
    imin(x0, imin(x1, x2)) <= x <= imax(x0, imax(x1, x2)) && imin(y0, imin(y1, y2)) <= y <= imax(
        y0,
        imax(y1, y2),
    )
}

/// Twice the signed area of the triangle (a, b, p): positive when p lies
/// left of the directed edge a to b.
pub open spec fn edge_fn(ax: int, ay: int, bx: int, by: int, px: int, py: int) -> int {
    (bx - ax) * (py - ay) - (by - ay) * (px - ax)
}

/// (px, py) lies inside the triangle: on the same side of all three
/// directed edges, or on an edge.
pub open spec fn in_triangle(
    x0: int,
    y0: int,
    x1: int,
    y1: int,
    x2: int,
    y2: int,
    px: int,
    py: int,
) -> bool {
    let e0 = edge_fn(x0, y0, x1, y1, px, py);
    let e1 = edge_fn(x1, y1, x2, y2, px, py);
    let e2 = edge_fn(x2, y2, x0, y0, px, py);
    (e0 >= 0 && e1 >= 0 && e2 >= 0) || (e0 <= 0 && e1 <= 0 && e2 <= 0)
}

/// (x, y) is a pixel the triangle fill paints: inside both the vertices'
/// bounding box and the triangle itself.
pub open spec fn tri_covers(
    x0: int,
    y0: int,
    x1: int,
    y1: int,
    x2: int,
    y2: int,
    x: int,
    y: int,
) -> bool {
    in_bbox3(x0, y0, x1, y1, x2, y2, x, y) && in_triangle(x0, y0, x1, y1, x2, y2, x, y)
}

/// Whether (px, py) lies inside the triangle.
fn in_triangle_test(
    x0: i32,
    y0: i32,
    x1: i32,
    y1: i32,
    x2: i32,
    y2: i32,
    px: i32,
    py: i32,
) -> (b: bool)
    requires
        -100000 <= x0 <= 100000,
        -100000 <= y0 <= 100000,
        -100000 <= x1 <= 100000,
        -100000 <= y1 <= 100000,
        -100000 <= x2 <= 100000,
        -100000 <= y2 <= 100000,
        -100000 <= px <= 100000,
        -100000 <= py <= 100000,
    ensures
        b == in_triangle(
            x0 as int,
            y0 as int,
            x1 as int,
            y1 as int,
            x2 as int,
            y2 as int,
            px as int,
            py as int,
        ),
{
    let u0: i64 = x1 as i64 - x0 as i64;
    let v0: i64 = y1 as i64 - y0 as i64;
    let u1: i64 = x2 as i64 - x1 as i64;
    let v1: i64 = y2 as i64 - y1 as i64;
    let u2: i64 = x0 as i64 - x2 as i64;
    let v2: i64 = y0 as i64 - y2 as i64;
    let p0: i64 = px as i64 - x0 as i64;
    let q0: i64 = py as i64 - y0 as i64;
    let p1: i64 = px as i64 - x1 as i64;
    let q1: i64 = py as i64 - y1 as i64;
    let p2: i64 = px as i64 - x2 as i64;
    let q2: i64 = py as i64 - y2 as i64;
    proof {
        assert(-40000000000 <= u0 * q0 <= 40000000000 && -40000000000 <= v0 * p0 <= 40000000000
            && -40000000000 <= u1 * q1 <= 40000000000 && -40000000000 <= v1 * p1 <= 40000000000
            && -40000000000 <= u2 * q2 <= 40000000000 && -40000000000 <= v2 * p2 <= 40000000000)
            by (nonlinear_arith)
            requires
                -200000 <= u0 <= 200000,
                -200000 <= v0 <= 200000,
                -200000 <= u1 <= 200000,
                -200000 <= v1 <= 200000,
                -200000 <= u2 <= 200000,
                -200000 <= v2 <= 200000,
                -200000 <= p0 <= 200000,
                -200000 <= q0 <= 200000,
                -200000 <= p1 <= 200000,
                -200000 <= q1 <= 200000,
                -200000 <= p2 <= 200000,
                -200000 <= q2 <= 200000,
        ;
    }
    let e0: i64 = u0 * q0 - v0 * p0;
    let e1: i64 = u1 * q1 - v1 * p1;
    let e2: i64 = u2 * q2 - v2 * p2;
    (e0 >= 0 && e1 >= 0 && e2 >= 0) || (e0 <= 0 && e1 <= 0 && e2 <= 0)
}

impl Canvas {
    /// Draws a rectangle with a fill and a stroke ring of the given
    /// width: pixels within `stroke_width` of the rectangle's edge take
    /// the stroke colour, the interior takes the fill colour, everything
    /// else is untouched.  A zero stroke width paints the fill alone.
    pub fn rectangle(&mut self, x0: i32, y0: i32, w: u32, h: u32, fill: Rgb, stroke: Rgb, stroke_width: u32)
        requires
            old(self).wf(),
        ensures
            final(self).wf(),
            forall|x: int, y: int|
                in_canvas(x, y) ==> #[trigger] pixel_at(final(self)@, x, y) == (if x0
                    + stroke_width <= x < x0 + w - stroke_width && y0 + stroke_width <= y < y0 + h
                    - stroke_width {
                    fill.tup()
                } else if x0 <= x < x0 + w && y0 <= y < y0 + h {
                    stroke.tup()
                } else {
                    pixel_at(old(self)@, x, y)
                }),
    {
        self.fill_rect(x0, y0, w, h, stroke);
        if (w as u64) >= 2 * (stroke_width as u64) && (h as u64) >= 2 * (stroke_width as u64) {
            let ix: i64 = x0 as i64 + stroke_width as i64;
            let iy: i64 = y0 as i64 + stroke_width as i64;
            if ix < 800 && iy < 480 {
                self.fill_rect(
                    ix as i32,
                    iy as i32,
                    w - 2 * stroke_width,
                    h - 2 * stroke_width,
                    fill,
                );
            }
            // Otherwise the interior starts beyond the canvas and there
            // is nothing to fill.
        }
        // Otherwise the stroke ring swallows the whole rectangle.
    }

    /// Draws a one-pixel line between the endpoints: every changed pixel
    /// lies in the endpoints' bounding box and takes the colour, both
    /// endpoints are painted where they lie on the canvas, and a
    /// horizontal or vertical line is painted solid.
    pub fn line(&mut self, x0: i32, y0: i32, x1: i32, y1: i32, c: Rgb)
        requires
            old(self).wf(),
            -100000 <= x0 <= 100000,
            -100000 <= y0 <= 100000,
            -100000 <= x1 <= 100000,
            -100000 <= y1 <= 100000,
        ensures
            final(self).wf(),
            forall|x: int, y: int|
                in_canvas(x, y) && !in_bbox(x0 as int, y0 as int, x1 as int, y1 as int, x, y)
                    ==> #[trigger] pixel_at(final(self)@, x, y) == pixel_at(old(self)@, x, y),
            forall|x: int, y: int|
                in_canvas(x, y) ==> #[trigger] pixel_at(final(self)@, x, y) == pixel_at(
                    old(self)@,
                    x,
                    y,
                ) || pixel_at(final(self)@, x, y) == c.tup(),
            in_canvas(x0 as int, y0 as int) ==> pixel_at(final(self)@, x0 as int, y0 as int)
                == c.tup(),
            in_canvas(x1 as int, y1 as int) ==> pixel_at(final(self)@, x1 as int, y1 as int)
                == c.tup(),
            y0 == y1 ==> forall|px: int|
                imin(x0 as int, x1 as int) <= px <= imax(x0 as int, x1 as int) && in_canvas(
                    px,
                    y0 as int,
                ) ==> #[trigger] pixel_at(final(self)@, px, y0 as int) == c.tup(),
            x0 == x1 ==> forall|py: int|
                imin(y0 as int, y1 as int) <= py <= imax(y0 as int, y1 as int) && in_canvas(
                    x0 as int,
                    py,
                ) ==> #[trigger] pixel_at(final(self)@, x0 as int, py) == c.tup(),
    {
        let dx: i32 = if x1 >= x0 {
            x1 - x0
        } else {
            x0 - x1
        };
        let dy: i32 = if y1 >= y0 {
            y0 - y1
        } else {
            y1 - y0
        };
        let sx: i32 = if x0 < x1 {
            1
        } else {
            -1
        };
        let sy: i32 = if y0 < y1 {
            1
        } else {
            -1
        };
        let mut err: i64 = dx as i64 + dy as i64;
        let mut x: i32 = x0;
        let mut y: i32 = y0;
        let ghost mut mx: int = 0;
        let ghost mut my: int = 0;
        let ghost pre = self@;
        self.set_pixel(x0, y0, c);
        proof {
            if in_canvas(x0 as int, y0 as int) {
                lemma_with_pixel(pre, x0 as int, y0 as int, c);
            }
        }
        loop
            invariant
                self.wf(),
                -100000 <= x0 <= 100000,
                -100000 <= y0 <= 100000,
                -100000 <= x1 <= 100000,
                -100000 <= y1 <= 100000,
                0 <= dx <= 200000,
                -200000 <= dy <= 0,
                dx as int == imax(x0 as int, x1 as int) - imin(x0 as int, x1 as int),
                dy as int == imin(y0 as int, y1 as int) - imax(y0 as int, y1 as int),
                sx == 1 || sx == -1,
                sy == 1 || sy == -1,
                sx == 1 ==> x0 <= x <= x1,
                sx == -1 ==> x1 <= x <= x0,
                sy == 1 ==> y0 <= y <= y1,
                sy == -1 ==> y1 <= y <= y0,
                mx == (if sx == 1 {
                    x - x0
                } else {
                    x0 - x
                }),
                my == (if sy == 1 {
                    y - y0
                } else {
                    y0 - y
                }),
                0 <= mx <= dx,
                0 <= my <= -(dy as int),
                err as int == dx + dy + mx * dy + my * dx,
                forall|px: int, py: int|
                    in_canvas(px, py) && !in_bbox(x0 as int, y0 as int, x1 as int, y1 as int, px, py)
                        ==> #[trigger] pixel_at(self@, px, py) == pixel_at(old(self)@, px, py),
                forall|px: int, py: int|
                    in_canvas(px, py) ==> #[trigger] pixel_at(self@, px, py) == pixel_at(
                        old(self)@,
                        px,
                        py,
                    ) || pixel_at(self@, px, py) == c.tup(),
                in_canvas(x0 as int, y0 as int) ==> pixel_at(self@, x0 as int, y0 as int)
                    == c.tup(),
                y0 == y1 ==> y == y0 && forall|px: int|
                    imin(x0 as int, x as int) <= px <= imax(x0 as int, x as int) && in_canvas(
                        px,
                        y0 as int,
                    ) ==> #[trigger] pixel_at(self@, px, y0 as int) == c.tup(),
                x0 == x1 ==> x == x0 && forall|py: int|
                    imin(y0 as int, y as int) <= py <= imax(y0 as int, y as int) && in_canvas(
                        x0 as int,
                        py,
                    ) ==> #[trigger] pixel_at(self@, x0 as int, py) == c.tup(),
            ensures
                self.wf(),
                forall|px: int, py: int|
                    in_canvas(px, py) && !in_bbox(x0 as int, y0 as int, x1 as int, y1 as int, px, py)
                        ==> #[trigger] pixel_at(self@, px, py) == pixel_at(old(self)@, px, py),
                forall|px: int, py: int|
                    in_canvas(px, py) ==> #[trigger] pixel_at(self@, px, py) == pixel_at(
                        old(self)@,
                        px,
                        py,
                    ) || pixel_at(self@, px, py) == c.tup(),
                in_canvas(x0 as int, y0 as int) ==> pixel_at(self@, x0 as int, y0 as int)
                    == c.tup(),
                y0 == y1 ==> forall|px: int|
                    imin(x0 as int, x1 as int) <= px <= imax(x0 as int, x1 as int) && in_canvas(
                        px,
                        y0 as int,
                    ) ==> #[trigger] pixel_at(self@, px, y0 as int) == c.tup(),
                x0 == x1 ==> forall|py: int|
                    imin(y0 as int, y1 as int) <= py <= imax(y0 as int, y1 as int) && in_canvas(
                        x0 as int,
                        py,
                    ) ==> #[trigger] pixel_at(self@, x0 as int, py) == c.tup(),
            decreases (if x1 >= x {
                x1 - x
            } else {
                x - x1
            }) + (if y1 >= y {
                y1 - y
            } else {
                y - y1
            }),
        {
            if x == x1 && y == y1 {
                break ;
            }
            proof {
                assert(-600000000000 <= err + dy && err + dx <= 600000000000 && -600000000000 <= 2
                    * err <= 600000000000) by (nonlinear_arith)
                    requires
                        err == dx + dy + mx * dy + my * dx,
                        0 <= mx <= dx <= 200000,
                        0 <= my <= -(dy as int),
                        -200000 <= dy <= 0,
                ;
            }
            let e2: i64 = 2 * err;
            if e2 >= dy as i64 {
                if x == x1 {
                    proof {
                        if x0 == x1 && y0 != y1 {
                            assert(err == dy) by (nonlinear_arith)
                                requires
                                    err == dx + dy + mx * dy + my * dx,
                                    dx == 0,
                                    mx == 0,
                            ;
                        }
                    }
                    break ;
                }
                let ghost mx0 = mx;
                let ghost err0 = err as int;
                err = err + dy as i64;
                x = x + sx;
                proof {
                    mx = mx + 1;
                    assert(err0 + dy == dx + dy + (mx0 + 1) * dy + my * dx) by (nonlinear_arith)
                        requires
                            err0 == dx + dy + mx0 * dy + my * dx,
                    ;
                }
            }
            if e2 <= dx as i64 {
                if y == y1 {
                    proof {
                        if y0 == y1 && x0 != x1 {
                            assert(err == dx) by (nonlinear_arith)
                                requires
                                    err == dx + dy + mx * dy + my * dx,
                                    dy == 0,
                                    my == 0,
                            ;
                        }
                    }
                    break ;
                }
                let ghost my0 = my;
                let ghost err1 = err as int;
                err = err + dx as i64;
                y = y + sy;
                proof {
                    my = my + 1;
                    assert(err1 + dx == dx + dy + mx * dy + (my0 + 1) * dx) by (nonlinear_arith)
                        requires
                            err1 == dx + dy + mx * dy + my0 * dx,
                    ;
                }
            }
            let ghost mid = self@;
            self.set_pixel(x, y, c);
            proof {
                if in_canvas(x as int, y as int) {
                    lemma_with_pixel(mid, x as int, y as int, c);
                }
            }
        }
        let ghost before_end = self@;
        self.set_pixel(x1, y1, c);
        proof {
            if in_canvas(x1 as int, y1 as int) {
                lemma_with_pixel(before_end, x1 as int, y1 as int, c);
            }
        }
    }

    /// Draws a filled triangle, optionally outlined: every changed pixel
    /// lies in the vertices' bounding box; without an outline exactly the
    /// pixels inside the triangle take the fill colour.
    #[verifier::rlimit(60)]
    pub fn triangle(
        &mut self,
        x0: i32,
        y0: i32,
        x1: i32,
        y1: i32,
        x2: i32,
        y2: i32,
        fill: Rgb,
        stroke: Option<Rgb>,
    )
        requires
            old(self).wf(),
            -100000 <= x0 <= 100000,
            -100000 <= y0 <= 100000,
            -100000 <= x1 <= 100000,
            -100000 <= y1 <= 100000,
            -100000 <= x2 <= 100000,
            -100000 <= y2 <= 100000,
        ensures
            final(self).wf(),
            forall|x: int, y: int|
                in_canvas(x, y) && !in_bbox3(
                    x0 as int,
                    y0 as int,
                    x1 as int,
                    y1 as int,
                    x2 as int,
                    y2 as int,
                    x,
                    y,
                ) ==> #[trigger] pixel_at(final(self)@, x, y) == pixel_at(old(self)@, x, y),
            stroke is None ==> forall|x: int, y: int|
                in_canvas(x, y) ==> #[trigger] pixel_at(final(self)@, x, y) == (if tri_covers(
                    x0 as int,
                    y0 as int,
                    x1 as int,
                    y1 as int,
                    x2 as int,
                    y2 as int,
                    x,
                    y,
                ) {
                    fill.tup()
                } else {
                    pixel_at(old(self)@, x, y)
                }),
            forall|x: int, y: int|
                in_canvas(x, y) ==> #[trigger] pixel_at(final(self)@, x, y) == pixel_at(
                    old(self)@,
                    x,
                    y,
                ) || pixel_at(final(self)@, x, y) == fill.tup() || (stroke matches Some(s)
                    && pixel_at(final(self)@, x, y) == s.tup()),
            stroke matches Some(s) ==> {
                &&& in_canvas(x0 as int, y0 as int) ==> pixel_at(final(self)@, x0 as int, y0 as int)
                    == s.tup()
                &&& in_canvas(x1 as int, y1 as int) ==> pixel_at(final(self)@, x1 as int, y1 as int)
                    == s.tup()
                &&& in_canvas(x2 as int, y2 as int) ==> pixel_at(final(self)@, x2 as int, y2 as int)
                    == s.tup()
            },
            stroke is Some ==> forall|x: int, y: int|
                in_canvas(x, y) && tri_covers(
                    x0 as int,
                    y0 as int,
                    x1 as int,
                    y1 as int,
                    x2 as int,
                    y2 as int,
                    x,
                    y,
                ) && !in_bbox(x0 as int, y0 as int, x1 as int, y1 as int, x, y) && !in_bbox(
                    x1 as int,
                    y1 as int,
                    x2 as int,
                    y2 as int,
                    x,
                    y,
                ) && !in_bbox(x2 as int, y2 as int, x0 as int, y0 as int, x, y) ==> #[trigger] pixel_at(
                    final(self)@,
                    x,
                    y,
                ) == fill.tup(),
    {
        let xlo: i32 = if x0 <= x1 && x0 <= x2 {
            x0
        } else if x1 <= x2 {
            x1
        } else {
            x2
        };
        let xhi: i32 = if x0 >= x1 && x0 >= x2 {
            x0
        } else if x1 >= x2 {
            x1
        } else {
            x2
        };
        let ylo: i32 = if y0 <= y1 && y0 <= y2 {
            y0
        } else if y1 <= y2 {
            y1
        } else {
            y2
        };
        let yhi: i32 = if y0 >= y1 && y0 >= y2 {
            y0
        } else if y1 >= y2 {
            y1
        } else {
            y2
        };
        let ys: usize = clamp_coord(ylo, CANVAS_H);
        let ye: usize = clamp_reach_i32(yhi, CANVAS_H);
        let xs: usize = clamp_coord(xlo, CANVAS_W);
        let xe: usize = clamp_reach_i32(xhi, CANVAS_W);
        let mut yy: usize = ys;
        while yy < ye
            invariant
                self.wf(),
                -100000 <= x0 <= 100000,
                -100000 <= y0 <= 100000,
                -100000 <= x1 <= 100000,
                -100000 <= y1 <= 100000,
                -100000 <= x2 <= 100000,
                -100000 <= y2 <= 100000,
                xlo as int == imin(x0 as int, imin(x1 as int, x2 as int)),
                xhi as int == imax(x0 as int, imax(x1 as int, x2 as int)),
                ylo as int == imin(y0 as int, imin(y1 as int, y2 as int)),
                yhi as int == imax(y0 as int, imax(y1 as int, y2 as int)),
                ys <= yy <= ye,
                ye <= 480,
                xs <= xe <= 800,
                xs as int == clamp_spec(xlo as int, 800),
                xe as int == clamp_spec(xhi as int + 1, 800),
                ys as int == clamp_spec(ylo as int, 480),
                ye as int == clamp_spec(yhi as int + 1, 480),
                forall|x: int, y: int|
                    in_canvas(x, y) ==> #[trigger] pixel_at(self@, x, y) == (if tri_covers(
                        x0 as int,
                        y0 as int,
                        x1 as int,
                        y1 as int,
                        x2 as int,
                        y2 as int,
                        x,
                        y,
                    ) && y < yy {
                        fill.tup()
                    } else {
                        pixel_at(old(self)@, x, y)
                    }),
            decreases ye - yy,
        {
            let mut xx: usize = xs;
            while xx < xe
                invariant
                    self.wf(),
                    -100000 <= x0 <= 100000,
                    -100000 <= y0 <= 100000,
                    -100000 <= x1 <= 100000,
                    -100000 <= y1 <= 100000,
                    -100000 <= x2 <= 100000,
                    -100000 <= y2 <= 100000,
                    xlo as int == imin(x0 as int, imin(x1 as int, x2 as int)),
                    xhi as int == imax(x0 as int, imax(x1 as int, x2 as int)),
                    ylo as int == imin(y0 as int, imin(y1 as int, y2 as int)),
                    yhi as int == imax(y0 as int, imax(y1 as int, y2 as int)),
                    ys <= yy < ye,
                    ye <= 480,
                    xs <= xx <= xe,
                    xe <= 800,
                    xs as int == clamp_spec(xlo as int, 800),
                    xe as int == clamp_spec(xhi as int + 1, 800),
                    ys as int == clamp_spec(ylo as int, 480),
                    ye as int == clamp_spec(yhi as int + 1, 480),
                    forall|x: int, y: int|
                        in_canvas(x, y) ==> #[trigger] pixel_at(self@, x, y) == (if tri_covers(
                            x0 as int,
                            y0 as int,
                            x1 as int,
                            y1 as int,
                            x2 as int,
                            y2 as int,
                            x,
                            y,
                        ) && (y < yy || (y == yy && x < xx)) {
                            fill.tup()
                        } else {
                            pixel_at(old(self)@, x, y)
                        }),
                decreases xe - xx,
            {
                if in_triangle_test(x0, y0, x1, y1, x2, y2, xx as i32, yy as i32) {
                    let ghost pre = self@;
                    self.set_pixel(xx as i32, yy as i32, fill);
                    proof {
                        lemma_with_pixel(pre, xx as int, yy as int, fill);
                    }
                }
                xx = xx + 1;
            }
            yy = yy + 1;
        }
        if let Some(s) = stroke {
            self.line(x0, y0, x1, y1, s);
            self.line(x1, y1, x2, y2, s);
            self.line(x2, y2, x0, y0, s);
        }
    }
}

/// Clamps the coordinate just past `v` into [0, hi].
fn clamp_reach_i32(v: i32, hi: usize) -> (out: usize)
    requires
        hi <= 800,
    ensures
        out as int == clamp_spec(v as int + 1, hi as int),
{
    let reach: i64 = v as i64 + 1;
    if reach < 0 {
        0
    } else if reach > hi as i64 {
        hi
    } else {
        reach as usize
    }
}

} // verus!
