//! Frame decoder: turns one Motion-JPEG byte payload into an RGB24 pixel
//! array with tight rows.  The JPEG decompression itself is done by the
//! `jpeg_decoder` crate behind a trusted wrapper; everything downstream
//! works on the plain `DecodedFrame` it returns.

use vstd::prelude::*;

use crate::PipelineError;

verus! {

/// One decoded camera frame: three bytes per pixel, row-major, tight rows.
#[derive(Debug, PartialEq, Eq)]
pub struct DecodedFrame {
    pub width: usize,
    pub height: usize,
    pub pixels: Vec<u8>,
}

impl DecodedFrame {
    /// The pixel buffer holds exactly three bytes for each pixel.
    pub open spec fn wf(&self) -> bool {
        self.pixels@.len() == self.width * self.height * 3
    }
}

/// The three channel bytes of frame pixel (x, y), in buffer order.
pub open spec fn frame_px(f: DecodedFrame, x: int, y: int) -> (u8, u8, u8) {
    let i = 3 * (y * f.width + x);
    (f.pixels@[i], f.pixels@[i + 1], f.pixels@[i + 2])
}

/// Reads the three channel bytes of pixel (x, y) of a frame.
pub fn read_px(frame: &DecodedFrame, x: usize, y: usize) -> (p: (u8, u8, u8))
    requires
        frame.wf(),
        x < frame.width,
        y < frame.height,
    ensures
        p == frame_px(*frame, x as int, y as int),
{
    proof {
        assert(frame.pixels@.len() <= usize::MAX) by {
            assert(frame.pixels.len() == frame.pixels@.len());
        }
        assert(0 <= y * frame.width && y * frame.width <= y * frame.width + x && 3 * (y
            * frame.width + x) + 2 < frame.pixels@.len())
            by (nonlinear_arith)
            requires
                y < frame.height,
                x < frame.width,
                frame.pixels@.len() == frame.width * frame.height * 3,
        ;
    }
    let idx: usize = 3 * (y * frame.width + x);
    (frame.pixels[idx], frame.pixels[idx + 1], frame.pixels[idx + 2])
}

/// What the JPEG decoder yields for a byte payload: the image width,
/// height and RGB24 pixel bytes for a payload it accepts as a colour,
/// non-lossless JPEG, and nothing for one it rejects.  With the decoder
/// built in its platform-independent mode the result is a function of the
/// bytes alone.
pub uninterp spec fn jpeg_decode_spec(bytes: Seq<u8>) -> Option<(u16, u16, Seq<u8>)>;

/// Relies on `jpeg_decoder::Decoder`: `decode` yields the decompressed
/// pixel bytes and `info` the image dimensions, pixel format and coding
/// process.  A three-component non-lossless JPEG is always 8 bits per
/// sample and decodes to RGB24 with three bytes per pixel, row-major with
/// tight rows, so the buffer holds width * height * 3 bytes.  Payloads
/// that fail to parse, images in a non-RGB24 format, and lossless frames
/// (whose samples come back two bytes wide) yield nothing.  The crate's
/// `platform_independent` feature keeps the decoded bytes identical on
/// every machine.
#[verifier::external_body]
fn decode_rgb24(data: &[u8]) -> (out: Option<(u16, u16, Vec<u8>)>)
    ensures
        out is Some <==> jpeg_decode_spec(data@) is Some,
        out matches Some(t) ==> jpeg_decode_spec(data@) == Some((t.0, t.1, t.2@)) && t.2@.len()
            == t.0 * t.1 * 3,
{
    let mut decoder = jpeg_decoder::Decoder::new(data);
    let pixels = match decoder.decode() {
        Ok(px) => px,
        Err(_) => return None,
    };
    match decoder.info() {
        Some(info) if matches!(info.pixel_format, jpeg_decoder::PixelFormat::RGB24) && !matches!(
            info.coding_process,
            jpeg_decoder::CodingProcess::Lossless,
        ) => Some((info.width, info.height, pixels)),
        _ => None,
    }
}

/// Decodes one MJPEG payload into a frame, or reports the decode failure.
/// The result is exactly what the JPEG decoder yields: success on the
/// payloads it accepts as colour JPEGs, the decode failure on every other
/// payload.
pub fn decode_frame(data: &[u8]) -> (out: Result<DecodedFrame, PipelineError>)
    ensures
        out is Ok <==> jpeg_decode_spec(data@) is Some,
        out matches Ok(f) ==> f.wf() && jpeg_decode_spec(data@) == Some(
            (f.width as u16, f.height as u16, f.pixels@),
        ) && f.width <= u16::MAX && f.height <= u16::MAX,
        out is Err ==> out == Err::<DecodedFrame, PipelineError>(PipelineError::DecodeFailure),
{
    match decode_rgb24(data) {
        Some((w, h, pixels)) => {
            let f = DecodedFrame { width: w as usize, height: h as usize, pixels };
            Ok(f)
        },
        None => Err(PipelineError::DecodeFailure),
    }
}

} // verus!
