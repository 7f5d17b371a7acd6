//! Rail-alignment overlay engine.
//!
//! Decodes Motion-JPEG camera frames, detects two parallel horizontal rails,
//! composites a status overlay onto an offscreen canvas, converts the canvas
//! to the native framebuffer pixel format, and decides bounded corrective
//! motor moves from the detected rail offset.

use vstd::prelude::*;

pub mod canvas;
pub mod control;
pub mod decode;
pub mod detect;
pub mod driver;
pub mod history;
pub mod pixel;
pub mod present;
pub mod text;

verus! {

/// The failure kinds of the pipeline.  Capture, mapping and command-emission
/// failures arise at the device edges; the format failure arises when the
/// framebuffer reports a pixel size the formatter does not support.
#[derive(Clone, Copy, Debug, PartialEq, Eq, Structural)]
pub enum PipelineError {
    /// Camera open, format negotiation, or frame fetch failed.
    CaptureFailure,
    /// Corrupt JPEG payload.
    DecodeFailure,
    /// Mapping the framebuffer memory failed.
    FramebufferMapFailure,
    /// Framebuffer bytes-per-pixel outside {2, 3, 4}.
    UnsupportedFramebufferFormat,
    /// Writing a motor-key file failed.
    CommandEmitFailure,
}

} // verus!
