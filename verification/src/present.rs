//! Presenter: converts the canvas into one native framebuffer image,
//! applying the pixel formatter to every output pixel.  Output pixels whose
//! source lies outside the canvas are padded with zero bytes.  On rotated
//! targets the source coordinate is mirrored in both axes (a 180 degree
//! turn), selected by a flag the build of the surrounding program fixes.

use vstd::prelude::*;

use crate::PipelineError;
use crate::canvas::Canvas;
use crate::canvas::in_canvas;
use crate::canvas::pixel_at;
use crate::pixel::PixelLayout;
use crate::pixel::ch_shift_ok16;
use crate::pixel::pack;
use crate::pixel::pack_spec;

verus! {

/// What the framebuffer device reports once at open: its size, bytes per
/// pixel, and channel layout.
#[derive(Clone, Copy, Debug, PartialEq, Eq, Structural)]
pub struct FramebufferInfo {
    pub width: usize,
    pub height: usize,
    pub bpp: usize,
    pub layout: PixelLayout,
}

impl FramebufferInfo {
    /// The packer's machine limits for this format: every channel it will
    /// shift fits the native word.
    pub open spec fn shift_ok(&self) -> bool {
        &&& self.bpp == 2 ==> ch_shift_ok16(self.layout.red) && ch_shift_ok16(self.layout.green)
            && ch_shift_ok16(self.layout.blue)
        &&& self.bpp == 3 || self.bpp == 4 ==> self.layout.red.offset <= 24
            && self.layout.green.offset <= 24 && self.layout.blue.offset <= 24
    }
}

/// The canvas coordinate that feeds output pixel (x, y): (x, y) itself, or
/// its mirror in both axes on a rotated target.
pub open spec fn src_coord(fb: FramebufferInfo, rotate: bool, x: int, y: int) -> (int, int) {
    if rotate {
        (fb.width - 1 - x, fb.height - 1 - y)
    } else {
        (x, y)
    }
}

/// The first output byte of framebuffer pixel (x, y).
pub open spec fn fb_index(fb: FramebufferInfo, x: int, y: int) -> int {
    (y * fb.width + x) * fb.bpp
}

/// The bytes output pixel (x, y) receives: the packed canvas pixel when
/// its source lies on the canvas, and bpp zero bytes otherwise.
pub open spec fn fb_pixel_bytes(
    canvas: Seq<u8>,
    fb: FramebufferInfo,
    rotate: bool,
    x: int,
    y: int,
) -> Seq<u8> {
    let sx = src_coord(fb, rotate, x, y).0;
    let sy = src_coord(fb, rotate, x, y).1;
    if in_canvas(sx, sy) {
        let p = pixel_at(canvas, sx, sy);
        pack_spec(fb.layout, fb.bpp as int, p.0, p.1, p.2)
    } else {
        Seq::new(fb.bpp as nat, |i: int| 0u8)
    }
}

/// Output pixel (x, y) of `mem` holds exactly its presenter bytes.
pub open spec fn pixel_presented(
    mem: Seq<u8>,
    canvas: Seq<u8>,
    fb: FramebufferInfo,
    rotate: bool,
    x: int,
    y: int,
) -> bool {
    forall|i: int|
        0 <= i < fb.bpp ==> mem[fb_index(fb, x, y) + i] == fb_pixel_bytes(canvas, fb, rotate, x, y)[i]
}

/// An output pixel whose source lies outside the canvas receives zero
/// bytes only.
pub proof fn lemma_present_pads_black(
    canvas: Seq<u8>,
    fb: FramebufferInfo,
    rotate: bool,
    x: int,
    y: int,
)
    requires
        !in_canvas(src_coord(fb, rotate, x, y).0, src_coord(fb, rotate, x, y).1),
    ensures
        forall|i: int| 0 <= i < fb.bpp ==> #[trigger] fb_pixel_bytes(canvas, fb, rotate, x, y)[i]
            == 0u8,
{
}

/// A run of zero bytes.
fn zero_bytes(n: usize) -> (v: Vec<u8>)
    ensures
        v@ == Seq::new(n as nat, |i: int| 0u8),
{
    let mut v: Vec<u8> = Vec::new();
    let mut i: usize = 0;
    while i < n
        invariant
            i <= n,
            v@.len() == i,
            forall|j: int| 0 <= j < i ==> v@[j] == 0u8,
        decreases n - i,
    {
        v.push(0u8);
        i = i + 1;
    }
    proof {
        assert(v@ =~= Seq::new(n as nat, |i: int| 0u8));
    }
    v
}

/// Renders the canvas into one full native framebuffer image: width *
/// height * bpp bytes, row-major, each pixel packed for the device layout,
/// zero-padded where the canvas does not reach.  Exactly 2, 3 and 4 bytes
/// per pixel are supported; any other width is the unsupported-format
/// failure.
pub fn present(canvas: &Canvas, fb: &FramebufferInfo, rotate: bool) -> (out: Result<
    Vec<u8>,
    PipelineError,
>)
    requires
        canvas.wf(),
        fb.shift_ok(),
        fb.width * fb.height * fb.bpp <= usize::MAX,
    ensures
        out is Ok <==> (fb.bpp == 2 || fb.bpp == 3 || fb.bpp == 4),
        out is Err ==> out == Err::<Vec<u8>, PipelineError>(
            PipelineError::UnsupportedFramebufferFormat,
        ),
        out matches Ok(mem) ==> mem@.len() == fb.width * fb.height * fb.bpp && forall|x: int, y: int|
            0 <= x < fb.width && 0 <= y < fb.height ==> #[trigger] pixel_presented(
                mem@,
                canvas@,
                *fb,
                rotate,
                x,
                y,
            ),
{
    if !(fb.bpp == 2 || fb.bpp == 3 || fb.bpp == 4) {
        return Err(PipelineError::UnsupportedFramebufferFormat);
    }
    let mut mem: Vec<u8> = Vec::new();
    let mut yy: usize = 0;
    while yy < fb.height
        invariant
            canvas.wf(),
            fb.shift_ok(),
            fb.bpp == 2 || fb.bpp == 3 || fb.bpp == 4,
            fb.width * fb.height * fb.bpp <= usize::MAX,
            yy <= fb.height,
            mem@.len() == yy * fb.width * fb.bpp,
            forall|x: int, y: int|
                0 <= x < fb.width && 0 <= y < yy ==> #[trigger] pixel_presented(
                    mem@,
                    canvas@,
                    *fb,
                    rotate,
                    x,
                    y,
                ),
        decreases fb.height - yy,
    {
        let mut xx: usize = 0;
        while xx < fb.width
            invariant
                canvas.wf(),
                fb.shift_ok(),
                fb.bpp == 2 || fb.bpp == 3 || fb.bpp == 4,
                fb.width * fb.height * fb.bpp <= usize::MAX,
                yy < fb.height,
                xx <= fb.width,
                mem@.len() == (yy * fb.width + xx) * fb.bpp,
                forall|x: int, y: int|
                    0 <= x < fb.width && 0 <= y < yy ==> #[trigger] pixel_presented(
                        mem@,
                        canvas@,
                        *fb,
                        rotate,
                        x,
                        y,
                    ),
                forall|x: int|
                    0 <= x < xx ==> #[trigger] pixel_presented(
                        mem@,
                        canvas@,
                        *fb,
                        rotate,
                        x,
                        yy as int,
                    ),
            decreases fb.width - xx,
        {
            proof {
                assert((yy * fb.width + xx) * fb.bpp + fb.bpp <= fb.width * fb.height * fb.bpp)
                    by (nonlinear_arith)
                    requires
                        yy < fb.height,
                        xx < fb.width,
                        fb.bpp >= 2,
                ;
            }
            let sx: usize = if rotate {
                fb.width - 1 - xx
            } else {
                xx
            };
            let sy: usize = if rotate {
                fb.height - 1 - yy
            } else {
                yy
            };
            let mut bytes: Vec<u8> = if sx < 800 && sy < 480 {
                let p = canvas.get_pixel(sx, sy);
                match pack(&fb.layout, fb.bpp, p.0, p.1, p.2) {
                    Ok(b) => b,
                    Err(e) => {
                        proof {
                            assert(false);
                        }
                        return Err(e);
                    },
                }
            } else {
                zero_bytes(fb.bpp)
            };
            proof {
                assert(bytes@ == fb_pixel_bytes(canvas@, *fb, rotate, xx as int, yy as int));
                assert(bytes@.len() == fb.bpp);
            }
            let ghost pre = mem@;
            mem.append(&mut bytes);
            proof {
                assert(mem@.len() == (yy * fb.width + xx) * fb.bpp + fb.bpp);
                assert((yy * fb.width + xx) * fb.bpp + fb.bpp == (yy * fb.width + (xx + 1))
                    * fb.bpp) by (nonlinear_arith);
                assert forall|x: int, y: int|
                    0 <= x < fb.width && 0 <= y < yy implies #[trigger] pixel_presented(
                    mem@,
                    canvas@,
                    *fb,
                    rotate,
                    x,
                    y,
                ) by {
                    assert(pixel_presented(pre, canvas@, *fb, rotate, x, y));
                    assert(0 <= fb_index(*fb, x, y) && fb_index(*fb, x, y) + fb.bpp <= pre.len())
                        by (nonlinear_arith)
                        requires
                            0 <= x < fb.width,
                            0 <= y < yy,
                            fb.bpp >= 2,
                            pre.len() == (yy * fb.width + xx) * fb.bpp,
                            fb_index(*fb, x, y) == (y * fb.width + x) * fb.bpp,
                    ;
                }
                assert forall|x: int| 0 <= x < xx + 1 implies #[trigger] pixel_presented(
                    mem@,
                    canvas@,
                    *fb,
                    rotate,
                    x,
                    yy as int,
                ) by {
                    if x < xx {
                        assert(pixel_presented(pre, canvas@, *fb, rotate, x, yy as int));
                        assert(0 <= fb_index(*fb, x, yy as int) && fb_index(*fb, x, yy as int)
                            + fb.bpp <= pre.len())
                            by (nonlinear_arith)
                            requires
                                0 <= x < xx,
                                fb.bpp >= 2,
                                pre.len() == (yy * fb.width + xx) * fb.bpp,
                                fb_index(*fb, x, yy as int) == (yy * fb.width + x) * fb.bpp,
                        ;
                    } else {
                        assert(fb_index(*fb, x, yy as int) == pre.len());
                    }
                }
            }
            xx = xx + 1;
        }
        proof {
            assert((yy * fb.width + fb.width) * fb.bpp == (yy + 1) * fb.width * fb.bpp)
                by (nonlinear_arith);
        }
        yy = yy + 1;
    }
    proof {
        assert(mem@.len() == fb.height * fb.width * fb.bpp);
        assert(fb.height * fb.width * fb.bpp == fb.width * fb.height * fb.bpp)
            by (nonlinear_arith);
    }
    Ok(mem)
}

} // verus!
