//! Monospaced text: draws 9x18 bold ASCII glyphs onto the canvas.  The
//! glyph bitmaps come from the embedded-graphics font behind a trusted
//! wrapper; the rendering itself is verified pixel by pixel.  A newline
//! returns to the origin column and advances one font height; bytes
//! outside printable ASCII occupy a blank cell.

use vstd::prelude::*;

use embedded_graphics::geometry::OriginDimensions;
use embedded_graphics::image::GetPixel;
use embedded_graphics::mono_font::mapping::GlyphMapping;

use crate::canvas::Canvas;
use crate::canvas::Rgb;
use crate::canvas::in_canvas;
use crate::canvas::lemma_with_pixel;
use crate::canvas::pixel_at;

verus! {

/// Glyph cell width in pixels.
pub const GLYPH_W: usize = 9;

/// Glyph cell height in pixels.
pub const GLYPH_H: usize = 18;

/// What the font yields for one printable ASCII byte: its 9x18 pixel
/// cell, row-major, true where the glyph is inked.
pub uninterp spec fn glyph_of(c: u8) -> Seq<bool>;

/// Relies on embedded_graphics's 9x18 bold font: `glyph_mapping.index`
/// locates the character's cell in the font image and `pixel` reads each
/// of its 9x18 pixels.  The bitmap is fixed font data, a function of the
/// character alone.
#[verifier::external_body]
fn glyph_pixels(c: u8) -> (r: Vec<bool>)
    requires
        32 <= c <= 126,
    ensures
        r@ == glyph_of(c),
        r@.len() == 162,
{
    let font = &embedded_graphics::mono_font::ascii::FONT_9X18_BOLD;
    let index = font.glyph_mapping.index(c as char) as u32;
    let per_row = font.image.size().width / font.character_size.width;
    let gx = (index % per_row) * font.character_size.width;
    let gy = (index / per_row) * font.character_size.height;
    let mut out = Vec::new();
    for row in 0..font.character_size.height {
        for col in 0..font.character_size.width {
            let p = embedded_graphics::geometry::Point::new((gx + col) as i32, (gy + row) as i32);
            out.push(font.image.pixel(p) == Some(embedded_graphics::pixelcolor::BinaryColor::On));
        }
    }
    out
}

/// A byte with a glyph of its own: printable ASCII.
pub open spec fn is_printable(b: u8) -> bool {
    32 <= b <= 126
}

/// The glyph with top-left corner (cx, cy) inks pixel (x, y).
pub open spec fn glyph_covers(g: Seq<bool>, cx: int, cy: int, x: int, y: int) -> bool {
    cx <= x < cx + 9 && cy <= y < cy + 18 && g[(y - cy) * 9 + (x - cx)]
}

/// The top-left corner of the cell of character k of a text drawn at
/// (x0, y0): each byte advances one cell, a newline returns to column x0
/// and advances one font height.
pub open spec fn cell_origin(s: Seq<u8>, x0: int, y0: int, k: int) -> (int, int)
    decreases k,
{
    if k <= 0 {
        (x0, y0)
    } else {
        let prev = cell_origin(s, x0, y0, k - 1);
        if s[k - 1] == 10 {
            (x0, prev.1 + 18)
        } else {
            (prev.0 + 9, prev.1)
        }
    }
}

/// Character k of the text inks pixel (x, y).
pub open spec fn char_covers(s: Seq<u8>, x0: int, y0: int, k: int, x: int, y: int) -> bool {
    is_printable(s[k]) && glyph_covers(
        glyph_of(s[k]),
        cell_origin(s, x0, y0, k).0,
        cell_origin(s, x0, y0, k).1,
        x,
        y,
    )
}

/// One of the first kk characters of the text inks pixel (x, y).
pub open spec fn text_covers_upto(s: Seq<u8>, x0: int, y0: int, kk: int, x: int, y: int) -> bool {
    exists|k: int| 0 <= k < kk && #[trigger] char_covers(s, x0, y0, k, x, y)
}

/// The text drawn at (x0, y0) inks pixel (x, y).
pub open spec fn text_covers(s: Seq<u8>, x0: int, y0: int, x: int, y: int) -> bool {
    text_covers_upto(s, x0, y0, s.len() as int, x, y)
}

/// Draws one glyph cell: exactly the inked pixels of the glyph take the
/// colour, clipped to the canvas; everything else is untouched.
fn draw_glyph(canvas: &mut Canvas, cx: i32, cy: i32, g: &Vec<bool>, color: Rgb)
    requires
        old(canvas).wf(),
        g@.len() == 162,
        -1000000 <= cx <= 1000000,
        -1000000 <= cy <= 1000000,
    ensures
        final(canvas).wf(),
        forall|x: int, y: int|
            in_canvas(x, y) ==> #[trigger] pixel_at(final(canvas)@, x, y) == (if glyph_covers(
                g@,
                cx as int,
                cy as int,
                x,
                y,
            ) {
                color.tup()
            } else {
                pixel_at(old(canvas)@, x, y)
            }),
{
    let mut row: usize = 0;
    while row < GLYPH_H
        invariant
            canvas.wf(),
            g@.len() == 162,
            -1000000 <= cx <= 1000000,
            -1000000 <= cy <= 1000000,
            row <= 18,
            forall|x: int, y: int|
                in_canvas(x, y) ==> #[trigger] pixel_at(canvas@, x, y) == (if glyph_covers(
                    g@,
                    cx as int,
                    cy as int,
                    x,
                    y,
                ) && (y - cy) < row {
                    color.tup()
                } else {
                    pixel_at(old(canvas)@, x, y)
                }),
        decreases 18 - row,
    {
        let mut col: usize = 0;
        while col < GLYPH_W
            invariant
                canvas.wf(),
                g@.len() == 162,
                -1000000 <= cx <= 1000000,
                -1000000 <= cy <= 1000000,
                row < 18,
                col <= 9,
                forall|x: int, y: int|
                    in_canvas(x, y) ==> #[trigger] pixel_at(canvas@, x, y) == (if glyph_covers(
                        g@,
                        cx as int,
                        cy as int,
                        x,
                        y,
                    ) && ((y - cy) < row || ((y - cy) == row && (x - cx) < col)) {
                        color.tup()
                    } else {
                        pixel_at(old(canvas)@, x, y)
                    }),
            decreases 9 - col,
        {
            if g[row * 9 + col] {
                let px: i32 = cx + col as i32;
                let py: i32 = cy + row as i32;
                let ghost pre = canvas@;
                canvas.set_pixel(px, py, color);
                proof {
                    if in_canvas(px as int, py as int) {
                        lemma_with_pixel(pre, px as int, py as int, color);
                    }
                }
            }
            col = col + 1;
        }
        row = row + 1;
    }
}

/// Draws a byte string in the monospaced font at (x0, y0): exactly the
/// pixels the text's glyphs ink take the colour, clipped to the canvas;
/// every other pixel is untouched.  A newline returns to column x0 one
/// font height down; a byte outside printable ASCII leaves its cell
/// blank.
pub fn draw_text(canvas: &mut Canvas, x0: i32, y0: i32, s: &[u8], color: Rgb)
    requires
        old(canvas).wf(),
        s@.len() <= 10000,
        -100000 <= x0 <= 100000,
        -100000 <= y0 <= 100000,
    ensures
        final(canvas).wf(),
        forall|x: int, y: int|
            in_canvas(x, y) ==> #[trigger] pixel_at(final(canvas)@, x, y) == (if text_covers(
                s@,
                x0 as int,
                y0 as int,
                x,
                y,
            ) {
                color.tup()
            } else {
                pixel_at(old(canvas)@, x, y)
            }),
{
    let len: usize = s.len();
    let mut cx: i32 = x0;
    let mut cy: i32 = y0;
    let mut k: usize = 0;
    while k < len
        invariant
            canvas.wf(),
            len == s@.len(),
            len <= 10000,
            -100000 <= x0 <= 100000,
            -100000 <= y0 <= 100000,
            k <= len,
            (cx as int, cy as int) == cell_origin(s@, x0 as int, y0 as int, k as int),
            x0 <= cx <= x0 + 9 * k,
            y0 <= cy <= y0 + 18 * k,
            forall|x: int, y: int|
                in_canvas(x, y) ==> #[trigger] pixel_at(canvas@, x, y) == (if text_covers_upto(
                    s@,
                    x0 as int,
                    y0 as int,
                    k as int,
                    x,
                    y,
                ) {
                    color.tup()
                } else {
                    pixel_at(old(canvas)@, x, y)
                }),
        decreases len - k,
    {
        let b: u8 = s[k];
        let ghost covered_before = canvas@;
        if 32 <= b && b <= 126 {
            let g = glyph_pixels(b);
            draw_glyph(canvas, cx, cy, &g, color);
        }
        proof {
            assert forall|x: int, y: int| in_canvas(x, y) implies #[trigger] pixel_at(
                canvas@,
                x,
                y,
            ) == (if text_covers_upto(s@, x0 as int, y0 as int, k + 1, x, y) {
                color.tup()
            } else {
                pixel_at(old(canvas)@, x, y)
            }) by {
                if text_covers_upto(s@, x0 as int, y0 as int, k + 1, x, y) {
                    let w = choose|j: int|
                        0 <= j < k + 1 && #[trigger] char_covers(s@, x0 as int, y0 as int, j, x, y);
                    if w < k {
                        assert(text_covers_upto(s@, x0 as int, y0 as int, k as int, x, y));
                    }
                } else {
                    assert(!char_covers(s@, x0 as int, y0 as int, k as int, x, y));
                    assert(!text_covers_upto(s@, x0 as int, y0 as int, k as int, x, y)) by {
                        if text_covers_upto(s@, x0 as int, y0 as int, k as int, x, y) {
                            let w = choose|j: int|
                                0 <= j < k && #[trigger] char_covers(
                                    s@,
                                    x0 as int,
                                    y0 as int,
                                    j,
                                    x,
                                    y,
                                );
                            assert(char_covers(s@, x0 as int, y0 as int, w, x, y));
                        }
                    }
                }
            }
        }
        if b == 10 {
            cx = x0;
            cy = cy + 18;
        } else {
            cx = cx + 9;
        }
        k = k + 1;
    }
    proof {
        assert(text_covers(s@, x0 as int, y0 as int, 0, 0) == text_covers_upto(
            s@,
            x0 as int,
            y0 as int,
            len as int,
            0,
            0,
        ));
    }
}

/// How many newline bytes occur among the first k bytes of a text.
pub open spec fn nl_prefix(s: Seq<u8>, k: int) -> int
    decreases k,
{
    if k <= 0 {
        0
    } else {
        nl_prefix(s, k - 1) + if s[k - 1] == 10 {
            1int
        } else {
            0int
        }
    }
}

/// Where the cell of character k sits: at or right of the origin column,
/// and exactly one font height down per preceding newline.
proof fn lemma_cell_origin_place(s: Seq<u8>, x0: int, y0: int, k: int)
    requires
        0 <= k,
    ensures
        cell_origin(s, x0, y0, k).0 >= x0,
        cell_origin(s, x0, y0, k).1 == y0 + 18 * nl_prefix(s, k),
    decreases k,
{
    if k > 0 {
        lemma_cell_origin_place(s, x0, y0, k - 1);
    }
}

proof fn lemma_nl_prefix_mono(s: Seq<u8>, k1: int, k2: int)
    requires
        0 <= k1 <= k2,
    ensures
        nl_prefix(s, k1) <= nl_prefix(s, k2),
    decreases k2 - k1,
{
    if k1 < k2 {
        lemma_nl_prefix_mono(s, k1, k2 - 1);
    }
}

/// Every pixel a text inks lies in its block: at or right of the origin
/// column, and inside the rows of its newline count plus one glyph.
pub proof fn lemma_text_covers_band(s: Seq<u8>, x0: int, y0: int)
    ensures
        forall|x: int, y: int|
            #[trigger] text_covers(s, x0, y0, x, y) ==> x0 <= x && y0 <= y < y0 + 18 * (nl_prefix(
                s,
                s.len() as int,
            ) + 1),
{
    assert forall|x: int, y: int| #[trigger] text_covers(s, x0, y0, x, y) implies x0 <= x && y0
        <= y < y0 + 18 * (nl_prefix(s, s.len() as int) + 1) by {
        let k = choose|k: int| 0 <= k < s.len() && #[trigger] char_covers(s, x0, y0, k, x, y);
        lemma_cell_origin_place(s, x0, y0, k);
        lemma_nl_prefix_mono(s, 0, k);
        lemma_nl_prefix_mono(s, k, s.len() as int);
    }
}

/// The decimal digits of n, most significant first.
pub open spec fn dec_digits(n: nat) -> Seq<u8>
    decreases n,
{
    if n < 10 {
        seq![(48 + n) as u8]
    } else {
        dec_digits(n / 10).push((48 + n % 10) as u8)
    }
}

/// The decimal digits of n as ASCII bytes.
pub fn u32_decimal(n: u32) -> (v: Vec<u8>)
    ensures
        v@ == dec_digits(n as nat),
    decreases n,
{
    if n < 10 {
        let mut v: Vec<u8> = Vec::new();
        v.push(48 + n as u8);
        proof {
            assert(v@ =~= dec_digits(n as nat));
        }
        v
    } else {
        let mut v = u32_decimal(n / 10);
        v.push(48 + (n % 10) as u8);
        v
    }
}

/// The FPS readout for a centi-FPS figure: "FPS: " then the whole part,
/// a point, and two fraction digits.
pub open spec fn fps_text_spec(centi: u32) -> Seq<u8> {
    seq![70u8, 80u8, 83u8, 58u8, 32u8] + dec_digits((centi / 100) as nat) + seq![
        46u8,
        (48 + (centi % 100) / 10) as u8,
        (48 + centi % 10) as u8,
    ]
}

/// Formats a centi-FPS figure as its screen text.
pub fn fps_text(centi: u32) -> (v: Vec<u8>)
    ensures
        v@ == fps_text_spec(centi),
{
    let mut v: Vec<u8> = Vec::new();
    v.push(70);
    v.push(80);
    v.push(83);
    v.push(58);
    v.push(32);
    let mut whole = u32_decimal(centi / 100);
    v.append(&mut whole);
    v.push(46);
    v.push(48 + ((centi % 100) / 10) as u8);
    v.push(48 + (centi % 10) as u8);
    proof {
        assert(v@ =~= fps_text_spec(centi));
    }
    v
}

} // verus!
