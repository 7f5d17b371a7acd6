//! Pixel formatter: maps an sRGB888 source pixel to the native framebuffer
//! word, driven by a description of the framebuffer's per-channel bit layout.
//!
//! For 3- and 4-byte formats the three 8-bit channels are shifted to their
//! offsets inside a 32-bit word and the output bytes are emitted in fixed
//! blue, green, red, (alpha = 0) order.  For 2-byte formats each channel is
//! first reduced to its 5- or 6-bit width and shifted into a 16-bit word,
//! emitted low byte first.

use vstd::prelude::*;

use crate::PipelineError;

verus! {

/// Where one colour channel sits inside the framebuffer word: its bit offset
/// and its width in bits.
#[derive(Clone, Copy, Debug, PartialEq, Eq, Structural)]
pub struct ChannelLayout {
    pub offset: u32,
    pub length: u32,
}

/// Per-channel bit layout of a framebuffer pixel word.
#[derive(Clone, Copy, Debug, PartialEq, Eq, Structural)]
pub struct PixelLayout {
    pub red: ChannelLayout,
    pub green: ChannelLayout,
    pub blue: ChannelLayout,
    pub alpha: ChannelLayout,
}

/// Two channels occupy non-overlapping bit ranges.
pub open spec fn channels_disjoint(a: ChannelLayout, b: ChannelLayout) -> bool {
    a.offset + a.length <= b.offset || b.offset + b.length <= a.offset
}

/// A layout drives the 32-bit packing exactly: each colour channel starts at
/// byte-extractable depth and the three channels are at least a byte apart,
/// so that extracting 8 bits at each offset recovers each channel unchanged.
pub open spec fn wide_layout_ok(l: PixelLayout) -> bool {
    &&& l.red.offset <= 24
    &&& l.green.offset <= 24
    &&& l.blue.offset <= 24
    &&& (l.red.offset + 8 <= l.green.offset || l.green.offset + 8 <= l.red.offset)
    &&& (l.red.offset + 8 <= l.blue.offset || l.blue.offset + 8 <= l.red.offset)
    &&& (l.green.offset + 8 <= l.blue.offset || l.blue.offset + 8 <= l.green.offset)
}

/// A layout drives the 16-bit packing exactly: every colour channel is 5 or
/// 6 bits wide, fits in the 16-bit word, and the channels do not overlap.
pub open spec fn rgb565_layout_ok(l: PixelLayout) -> bool {
    &&& l.red.length == 5 || l.red.length == 6
    &&& l.green.length == 5 || l.green.length == 6
    &&& l.blue.length == 5 || l.blue.length == 6
    &&& l.red.offset + l.red.length <= 16
    &&& l.green.offset + l.green.length <= 16
    &&& l.blue.offset + l.blue.length <= 16
    &&& channels_disjoint(l.red, l.green)
    &&& channels_disjoint(l.red, l.blue)
    &&& channels_disjoint(l.green, l.blue)
}

/// The weakest demand the packer itself makes of a 2-byte layout: any
/// channel it will shift must fit in the 16-bit word.  Channels of other
/// widths are skipped and need no bound.
pub open spec fn ch_shift_ok16(ch: ChannelLayout) -> bool {
    (ch.length == 5 || ch.length == 6) ==> ch.offset + ch.length <= 16
}

/// What one channel contributes to the 16-bit word: the value cut down to
/// 5 or 6 bits, shifted to the channel's offset.  A channel of any other
/// width contributes nothing.
pub open spec fn word16_contrib(ch: ChannelLayout, v: u8) -> u16 {
    if ch.length == 5 {
        ((v >> 3) as u16) << ch.offset
    } else if ch.length == 6 {
        ((v >> 2) as u16) << ch.offset
    } else {
        0u16
    }
}

/// The 16-bit native word for one pixel, channels merged in blue, green,
/// red order.
pub open spec fn word16_of(l: PixelLayout, r: u8, g: u8, b: u8) -> u16 {
    (word16_contrib(l.blue, b) | word16_contrib(l.green, g)) | word16_contrib(l.red, r)
}

/// The 32-bit native word for one pixel, each full 8-bit channel shifted to
/// its offset.
pub open spec fn word32_of(l: PixelLayout, r: u8, g: u8, b: u8) -> u32 {
    (((r as u32) << l.red.offset) | ((g as u32) << l.green.offset)) | ((b as u32) << l.blue.offset)
}

/// The byte of `w` that starts at bit `off`.
pub open spec fn byte_at(w: u32, off: u32) -> u8 {
    ((w >> off) & 0xff) as u8
}

/// The bytes `pack` emits: for 2 bytes per pixel the 16-bit word low byte
/// first; for 3 or 4 bytes per pixel the blue, green and red bytes of the
/// 32-bit word, with a zero alpha byte in the 4-byte case.
pub open spec fn pack_spec(l: PixelLayout, bpp: int, r: u8, g: u8, b: u8) -> Seq<u8> {
    if bpp == 2 {
        let w = word16_of(l, r, g, b);
        seq![(w & 0xff) as u8, ((w >> 8) & 0xff) as u8]
    } else {
        let w = word32_of(l, r, g, b);
        if bpp == 3 {
            seq![byte_at(w, l.blue.offset), byte_at(w, l.green.offset), byte_at(w, l.red.offset)]
        } else {
            seq![
                byte_at(w, l.blue.offset),
                byte_at(w, l.green.offset),
                byte_at(w, l.red.offset),
                0u8,
            ]
        }
    }
}

/// The 16-bit word read back from its two emitted bytes.
pub open spec fn word16_back(bytes: Seq<u8>) -> u16 {
    (bytes[0] as u16) | ((bytes[1] as u16) << 8)
}

/// One channel read back out of the 16-bit word and rescaled to 8 bits.
pub open spec fn field16(w: u16, ch: ChannelLayout) -> u8 {
    if ch.length == 5 {
        (((w >> ch.offset) & 0x1f) as u8) << 3
    } else if ch.length == 6 {
        (((w >> ch.offset) & 0x3f) as u8) << 2
    } else {
        0u8
    }
}

/// The 32-bit word read back from the emitted blue, green and red bytes.
pub open spec fn word32_back(bytes: Seq<u8>, l: PixelLayout) -> u32 {
    (((bytes[0] as u32) << l.blue.offset) | ((bytes[1] as u32) << l.green.offset))
        | ((bytes[2] as u32) << l.red.offset)
}

/// The (red, green, blue) triple recovered from packed bytes under the same
/// layout that packed them.
pub open spec fn unpack_spec(bytes: Seq<u8>, l: PixelLayout, bpp: int) -> (u8, u8, u8) {
    if bpp == 2 {
        let w = word16_back(bytes);
        (field16(w, l.red), field16(w, l.green), field16(w, l.blue))
    } else {
        let w = word32_back(bytes, l);
        (byte_at(w, l.red.offset), byte_at(w, l.green.offset), byte_at(w, l.blue.offset))
    }
}

/// What one channel contributes to the 16-bit word.
fn contrib16(ch: &ChannelLayout, v: u8) -> (w: u16)
    requires
        ch_shift_ok16(*ch),
    ensures
        w == word16_contrib(*ch, v),
{
    if ch.length == 5 {
        ((v >> 3) as u16) << ch.offset
    } else if ch.length == 6 {
        ((v >> 2) as u16) << ch.offset
    } else {
        0u16
    }
}

/// Packs one sRGB888 pixel into the native framebuffer bytes for the given
/// layout.  Exactly 2, 3 and 4 bytes per pixel are supported; any other
/// width is the unsupported-format failure.
pub fn pack(layout: &PixelLayout, bpp: usize, r: u8, g: u8, b: u8) -> (out: Result<
    Vec<u8>,
    PipelineError,
>)
    requires
        bpp == 2 ==> ch_shift_ok16(layout.red) && ch_shift_ok16(layout.green) && ch_shift_ok16(
            layout.blue,
        ),
        bpp == 3 || bpp == 4 ==> layout.red.offset <= 24 && layout.green.offset <= 24
            && layout.blue.offset <= 24,
    ensures
        out is Ok <==> (bpp == 2 || bpp == 3 || bpp == 4),
        out is Err ==> out == Err::<Vec<u8>, PipelineError>(
            PipelineError::UnsupportedFramebufferFormat,
        ),
        out matches Ok(bytes) ==> bytes@ == pack_spec(*layout, bpp as int, r, g, b),
{
    let mut bytes: Vec<u8> = Vec::new();
    if bpp == 2 {
        let w: u16 = (contrib16(&layout.blue, b) | contrib16(&layout.green, g)) | contrib16(
            &layout.red,
            r,
        );
        bytes.push((w & 0xff) as u8);
        bytes.push(((w >> 8) & 0xff) as u8);
        assert(bytes@ =~= pack_spec(*layout, bpp as int, r, g, b));
        Ok(bytes)
    } else if bpp == 3 || bpp == 4 {
        let w: u32 = (((r as u32) << layout.red.offset) | ((g as u32) << layout.green.offset)) | (
        (b as u32) << layout.blue.offset);
        bytes.push(((w >> layout.blue.offset) & 0xff) as u8);
        bytes.push(((w >> layout.green.offset) & 0xff) as u8);
        bytes.push(((w >> layout.red.offset) & 0xff) as u8);
        if bpp == 4 {
            bytes.push(0u8);
        }
        assert(bytes@ =~= pack_spec(*layout, bpp as int, r, g, b));
        Ok(bytes)
    } else {
        Err(PipelineError::UnsupportedFramebufferFormat)
    }
}

/// Recovers the (red, green, blue) triple from packed framebuffer bytes.
pub fn unpack(bytes: &Vec<u8>, layout: &PixelLayout, bpp: usize) -> (out: (u8, u8, u8))
    requires
        bpp == 2 || bpp == 3 || bpp == 4,
        bytes@.len() == bpp,
        bpp == 2 ==> ch_shift_ok16(layout.red) && ch_shift_ok16(layout.green) && ch_shift_ok16(
            layout.blue,
        ),
        bpp == 3 || bpp == 4 ==> layout.red.offset <= 24 && layout.green.offset <= 24
            && layout.blue.offset <= 24,
    ensures
        out == unpack_spec(bytes@, *layout, bpp as int),
{
    if bpp == 2 {
        let w: u16 = (bytes[0] as u16) | ((bytes[1] as u16) << 8);
        (field16_exec(w, &layout.red), field16_exec(w, &layout.green), field16_exec(
            w,
            &layout.blue,
        ))
    } else {
        let w: u32 = (((bytes[0] as u32) << layout.blue.offset) | ((bytes[1] as u32)
            << layout.green.offset)) | ((bytes[2] as u32) << layout.red.offset);
        (
            ((w >> layout.red.offset) & 0xff) as u8,
            ((w >> layout.green.offset) & 0xff) as u8,
            ((w >> layout.blue.offset) & 0xff) as u8,
        )
    }
}

/// One channel read back out of the 16-bit word and rescaled to 8 bits.
fn field16_exec(w: u16, ch: &ChannelLayout) -> (v: u8)
    requires
        ch_shift_ok16(*ch),
    ensures
        v == field16(w, *ch),
{
    if ch.length == 5 {
        (((w >> ch.offset) & 0x1f) as u8) << 3
    } else if ch.length == 6 {
        (((w >> ch.offset) & 0x3f) as u8) << 2
    } else {
        0u8
    }
}

/// Bit-level round trip for the 32-bit packing: with the channels at least
/// a byte apart, re-extracting each byte after the pack recovers it exactly.
proof fn lemma_wide_roundtrip_bits(r: u8, g: u8, b: u8, ro: u32, go: u32, bo: u32)
    by (bit_vector)
    requires
        ro <= 24,
        go <= 24,
        bo <= 24,
        ro + 8 <= go || go + 8 <= ro,
        ro + 8 <= bo || bo + 8 <= ro,
        go + 8 <= bo || bo + 8 <= go,
    ensures
        ({
            let w = (((r as u32) << ro) | ((g as u32) << go)) | ((b as u32) << bo);
            let c0 = ((w >> bo) & 0xff) as u8;
            let c1 = ((w >> go) & 0xff) as u8;
            let c2 = ((w >> ro) & 0xff) as u8;
            let w2 = (((c0 as u32) << bo) | ((c1 as u32) << go)) | ((c2 as u32) << ro);
            &&& ((w2 >> ro) & 0xff) as u8 == r
            &&& ((w2 >> go) & 0xff) as u8 == g
            &&& ((w2 >> bo) & 0xff) as u8 == b
        }),
{
}

/// Packing a pixel for a 3- or 4-byte layout and unpacking it under the same
/// layout gives the channels back exactly.
pub proof fn lemma_pack_unpack_wide(l: PixelLayout, bpp: int, r: u8, g: u8, b: u8)
    requires
        wide_layout_ok(l),
        bpp == 3 || bpp == 4,
    ensures
        unpack_spec(pack_spec(l, bpp, r, g, b), l, bpp) == (r, g, b),
{
    lemma_wide_roundtrip_bits(r, g, b, l.red.offset, l.green.offset, l.blue.offset);
}

/// Bit-level round trip for the 16-bit packing: with non-overlapping 5- or
/// 6-bit channels, each channel comes back as its own value with the low
/// quantization bits cleared, so the loss is below one quantization step.
proof fn lemma_565_channel_bits(
    r: u8,
    g: u8,
    b: u8,
    ro: u32,
    go: u32,
    bo: u32,
    rl: u32,
    gl: u32,
    bl: u32,
)
    by (bit_vector)
    requires
        rl == 5 || rl == 6,
        gl == 5 || gl == 6,
        bl == 5 || bl == 6,
        ro + rl <= 16,
        go + gl <= 16,
        bo + bl <= 16,
        ro + rl <= go || go + gl <= ro,
        ro + rl <= bo || bo + bl <= ro,
        go + gl <= bo || bo + bl <= go,
    ensures
        ({
            let cr: u16 = if rl == 5 {
                ((r >> 3) as u16) << ro
            } else {
                ((r >> 2) as u16) << ro
            };
            let cg: u16 = if gl == 5 {
                ((g >> 3) as u16) << go
            } else {
                ((g >> 2) as u16) << go
            };
            let cb: u16 = if bl == 5 {
                ((b >> 3) as u16) << bo
            } else {
                ((b >> 2) as u16) << bo
            };
            let w = (cb | cg) | cr;
            let ur: u8 = if rl == 5 {
                (((w >> ro) & 0x1f) as u8) << 3
            } else {
                (((w >> ro) & 0x3f) as u8) << 2
            };
            let ug: u8 = if gl == 5 {
                (((w >> go) & 0x1f) as u8) << 3
            } else {
                (((w >> go) & 0x3f) as u8) << 2
            };
            let ub: u8 = if bl == 5 {
                (((w >> bo) & 0x1f) as u8) << 3
            } else {
                (((w >> bo) & 0x3f) as u8) << 2
            };
            &&& ur <= r && r - ur < (if rl == 5 {
                8int
            } else {
                4int
            })
            &&& ug <= g && g - ug < (if gl == 5 {
                8int
            } else {
                4int
            })
            &&& ub <= b && b - ub < (if bl == 5 {
                8int
            } else {
                4int
            })
        }),
{
}

/// The size of one quantization step for a channel of the given bit width.
pub open spec fn quant_step(length: u32) -> int {
    if length == 5 {
        8
    } else {
        4
    }
}

/// Packing a pixel for a 2-byte layout with 5- and 6-bit channels and
/// unpacking it under the same layout recovers every channel to within one
/// quantization step below the input.
pub proof fn lemma_pack_unpack_rgb565(l: PixelLayout, r: u8, g: u8, b: u8)
    requires
        rgb565_layout_ok(l),
    ensures
        ({
            let (ur, ug, ub) = unpack_spec(pack_spec(l, 2, r, g, b), l, 2);
            &&& ur <= r && r - ur < quant_step(l.red.length)
            &&& ug <= g && g - ug < quant_step(l.green.length)
            &&& ub <= b && b - ub < quant_step(l.blue.length)
        }),
{
    let w = word16_of(l, r, g, b);
    let bytes = pack_spec(l, 2, r, g, b);
    assert(word16_back(bytes) == w) by {
        assert(((((w & 0xff) as u8) as u16) | ((((w >> 8) & 0xff) as u8) as u16) << 8) == w)
            by (bit_vector);
    }
    lemma_565_channel_bits(
        r,
        g,
        b,
        l.red.offset,
        l.green.offset,
        l.blue.offset,
        l.red.length,
        l.green.length,
        l.blue.length,
    );
}

} // verus!
