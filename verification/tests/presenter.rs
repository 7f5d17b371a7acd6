use camera_display::PipelineError;
use camera_display::canvas::{Canvas, Rgb};
use camera_display::pixel::{ChannelLayout, PixelLayout};
use camera_display::present::{FramebufferInfo, present};

fn wide_layout() -> PixelLayout {
    PixelLayout {
        red: ChannelLayout { offset: 16, length: 8 },
        green: ChannelLayout { offset: 8, length: 8 },
        blue: ChannelLayout { offset: 0, length: 8 },
        alpha: ChannelLayout { offset: 24, length: 8 },
    }
}

fn rgb565_layout() -> PixelLayout {
    PixelLayout {
        red: ChannelLayout { offset: 11, length: 5 },
        green: ChannelLayout { offset: 5, length: 6 },
        blue: ChannelLayout { offset: 0, length: 5 },
        alpha: ChannelLayout { offset: 0, length: 0 },
    }
}

#[test]
fn presents_packed_canvas_pixels() {
    let mut canvas = Canvas::new();
    canvas.set_pixel(0, 0, Rgb::new(1, 2, 3));
    canvas.set_pixel(1, 0, Rgb::new(10, 20, 30));
    let fb = FramebufferInfo { width: 2, height: 1, bpp: 3, layout: wide_layout() };
    let mem = present(&canvas, &fb, false).unwrap();
    assert_eq!(mem, vec![3, 2, 1, 30, 20, 10]);
}

#[test]
fn pads_outside_canvas_with_zero() {
    // A framebuffer two rows taller than the canvas: the bottom rows have
    // no canvas source and come out as zero bytes.
    let mut canvas = Canvas::new();
    for y in 0..480 {
        for x in 0..4 {
            canvas.set_pixel(x, y, Rgb::new(200, 200, 200));
        }
    }
    let fb = FramebufferInfo { width: 4, height: 482, bpp: 3, layout: wide_layout() };
    let mem = present(&canvas, &fb, false).unwrap();
    assert_eq!(mem.len(), 4 * 482 * 3);
    for y in 480..482 {
        for x in 0..4 {
            let i = (y * 4 + x) * 3;
            assert_eq!(&mem[i..i + 3], &[0, 0, 0], "pixel ({}, {}) must be black", x, y);
        }
    }
    let i = (479 * 4 + 3) * 3;
    assert_eq!(&mem[i..i + 3], &[200, 200, 200]);
}

#[test]
fn presents_rgb565_low_byte_first() {
    let mut canvas = Canvas::new();
    canvas.set_pixel(0, 0, Rgb::new(255, 128, 0));
    let fb = FramebufferInfo { width: 1, height: 1, bpp: 2, layout: rgb565_layout() };
    let mem = present(&canvas, &fb, false).unwrap();
    assert_eq!(mem, vec![0x00, 0xFC]);
}

#[test]
fn four_byte_pixels_have_zero_alpha() {
    let mut canvas = Canvas::new();
    canvas.set_pixel(0, 0, Rgb::new(5, 6, 7));
    let fb = FramebufferInfo { width: 1, height: 1, bpp: 4, layout: wide_layout() };
    let mem = present(&canvas, &fb, false).unwrap();
    assert_eq!(mem, vec![7, 6, 5, 0]);
}

#[test]
fn rotation_mirrors_both_axes() {
    let mut canvas = Canvas::new();
    canvas.set_pixel(0, 0, Rgb::new(1, 1, 1));
    canvas.set_pixel(1, 0, Rgb::new(2, 2, 2));
    canvas.set_pixel(0, 1, Rgb::new(3, 3, 3));
    canvas.set_pixel(1, 1, Rgb::new(4, 4, 4));
    let fb = FramebufferInfo { width: 2, height: 2, bpp: 3, layout: wide_layout() };
    let mem = present(&canvas, &fb, true).unwrap();
    // Output (0, 0) reads canvas (1, 1), and so on.
    assert_eq!(&mem[0..3], &[4, 4, 4]);
    assert_eq!(&mem[3..6], &[3, 3, 3]);
    assert_eq!(&mem[6..9], &[2, 2, 2]);
    assert_eq!(&mem[9..12], &[1, 1, 1]);
}

#[test]
fn unsupported_bpp_is_rejected() {
    let canvas = Canvas::new();
    let fb = FramebufferInfo { width: 2, height: 2, bpp: 5, layout: wide_layout() };
    assert_eq!(present(&canvas, &fb, false), Err(PipelineError::UnsupportedFramebufferFormat));
}
