use camera_display::PipelineError;
use camera_display::canvas::{Canvas, Rgb};
use camera_display::control::{Command, Decision, MotorStatus};
use camera_display::driver::{motor_message, rail_message};
use camera_display::text::draw_text;
use camera_display::decode::{DecodedFrame, decode_frame};
use camera_display::detect::{LAYOUT_RAIL_Y, RAIL_PAIR_WIDTH, TABLE_RAIL_Y};
use camera_display::driver::Pipeline;

/// A hand-assembled baseline JPEG: 8x8, three components, flat
/// mid-grey, unit quantization, one-code Huffman tables.
const GRAY_8X8_JPEG: [u8; 264] = [
    255, 216, 255, 219, 0, 67, 0, 1, 1, 1, 1, 1, 1, 1, 1, 1, 1, 1, 1, 1, 1, 1, 1, 1, 1, 1, 1, 1,
    1, 1, 1, 1, 1, 1, 1, 1, 1, 1, 1, 1, 1, 1, 1, 1, 1, 1, 1, 1, 1, 1, 1, 1, 1, 1, 1, 1, 1, 1, 1,
    1, 1, 1, 1, 1, 1, 1, 1, 1, 1, 1, 1, 255, 219, 0, 67, 1, 1, 1, 1, 1, 1, 1, 1, 1, 1, 1, 1, 1, 1,
    1, 1, 1, 1, 1, 1, 1, 1, 1, 1, 1, 1, 1, 1, 1, 1, 1, 1, 1, 1, 1, 1, 1, 1, 1, 1, 1, 1, 1, 1, 1,
    1, 1, 1, 1, 1, 1, 1, 1, 1, 1, 1, 1, 1, 1, 1, 1, 1, 1, 1, 1, 255, 192, 0, 17, 8, 0, 8, 0, 8, 3,
    1, 17, 0, 2, 17, 1, 3, 17, 1, 255, 196, 0, 20, 0, 1, 0, 0, 0, 0, 0, 0, 0, 0, 0, 0, 0, 0, 0, 0,
    0, 0, 255, 196, 0, 20, 16, 1, 0, 0, 0, 0, 0, 0, 0, 0, 0, 0, 0, 0, 0, 0, 0, 0, 255, 196, 0, 20,
    1, 1, 0, 0, 0, 0, 0, 0, 0, 0, 0, 0, 0, 0, 0, 0, 0, 0, 255, 196, 0, 20, 17, 1, 0, 0, 0, 0, 0,
    0, 0, 0, 0, 0, 0, 0, 0, 0, 0, 0, 255, 218, 0, 12, 3, 1, 0, 2, 17, 3, 17, 0, 63, 0, 3, 255,
    217,
];

#[test]
fn decodes_a_colour_jpeg() {
    let frame = decode_frame(&GRAY_8X8_JPEG).expect("valid JPEG must decode");
    assert_eq!(frame.width, 8);
    assert_eq!(frame.height, 8);
    assert_eq!(frame.pixels.len(), 8 * 8 * 3);
    // Flat zero coefficients decode to mid-grey exactly.
    assert!(frame.pixels.iter().all(|&b| b == 128));
}

#[test]
fn malformed_payload_is_a_decode_failure() {
    assert_eq!(decode_frame(b"not a jpeg"), Err(PipelineError::DecodeFailure));
    assert_eq!(decode_frame(&[]), Err(PipelineError::DecodeFailure));
    let mut cut = GRAY_8X8_JPEG.to_vec();
    cut.truncate(40);
    assert_eq!(decode_frame(&cut), Err(PipelineError::DecodeFailure));
}

const W: usize = 640;
const H: usize = 480;

fn paint(frame: &mut DecodedFrame, x: usize, y: usize) {
    let i = (y * W + x) * 3;
    frame.pixels[i] = 255;
    frame.pixels[i + 1] = 255;
    frame.pixels[i + 2] = 255;
}

fn frame_with_rails(table_left: Option<usize>, layout_left: Option<usize>) -> DecodedFrame {
    let mut f = DecodedFrame { width: W, height: H, pixels: vec![0u8; W * H * 3] };
    match table_left {
        Some(x) => {
            paint(&mut f, x, TABLE_RAIL_Y);
            paint(&mut f, x + RAIL_PAIR_WIDTH, TABLE_RAIL_Y);
        },
        // A lone bright spot outside the scan window: the adaptive
        // threshold then keeps only it, and no rail pair is found.
        None => paint(&mut f, 10, TABLE_RAIL_Y),
    }
    match layout_left {
        Some(x) => {
            paint(&mut f, x, LAYOUT_RAIL_Y);
            paint(&mut f, x + RAIL_PAIR_WIDTH, LAYOUT_RAIL_Y);
        },
        None => paint(&mut f, 10, LAYOUT_RAIL_Y),
    }
    f
}

fn idle() -> MotorStatus {
    MotorStatus { is_moving: false, idle_ms: Some(1000) }
}

#[test]
fn aligned_frame_emits_no_command() {
    let mut p = Pipeline::new();
    let f = frame_with_rails(Some(200), Some(200));
    let cmd = p.run_frame(&f, &idle(), 1000);
    assert_eq!(cmd, None);
}

#[test]
fn offset_frame_emits_move_left_each_frame() {
    let mut p = Pipeline::new();
    let f = frame_with_rails(Some(195), Some(200));
    let cmd = p.run_frame(&f, &idle(), 1000);
    assert_eq!(cmd, Some(Command::MoveLeft));
    assert_eq!(cmd.unwrap().codes(), "114");
    let cmd = p.run_frame(&f, &idle(), 1100);
    assert_eq!(cmd, Some(Command::MoveLeft));
}

#[test]
fn missing_rails_emit_nothing() {
    let mut p = Pipeline::new();
    let f = frame_with_rails(None, None);
    assert_eq!(p.run_frame(&f, &idle(), 1000), None);
}

#[test]
fn missing_layout_rail_uses_history_mean() {
    let mut p = Pipeline::new();
    p.layout_history.record(0, 210);
    p.layout_history.record(1, 212);
    p.layout_history.record(2, 208);
    // Table rail at 205, layout rail missing: the synthesized layout x is
    // the history mean 210, so diff = -5 and the table moves left.
    let f = frame_with_rails(Some(205), None);
    assert_eq!(p.run_frame(&f, &idle(), 1000), Some(Command::MoveLeft));
}

#[test]
fn missing_layout_rail_with_empty_history_emits_nothing() {
    let mut p = Pipeline::new();
    let f = frame_with_rails(Some(205), None);
    assert_eq!(p.run_frame(&f, &idle(), 1000), None);
}

#[test]
fn busy_motor_blocks_commands() {
    let mut p = Pipeline::new();
    let f = frame_with_rails(Some(195), Some(200));
    let busy = MotorStatus { is_moving: true, idle_ms: Some(0) };
    assert_eq!(p.run_frame(&f, &busy, 1000), None);
    assert_eq!(p.controller.remaining_moves, 32);
}

#[test]
fn quota_bounds_commands_across_frames() {
    let mut p = Pipeline::new();
    let f = frame_with_rails(Some(195), Some(200));
    let mut emitted = 0;
    for i in 0..40u64 {
        if p.run_frame(&f, &idle(), 1000 + i * 100).is_some() {
            emitted += 1;
        }
    }
    assert_eq!(emitted, 32);
}

#[test]
fn save_emitted_once_after_session() {
    let mut p = Pipeline::new();
    let f = frame_with_rails(Some(195), Some(200));
    let busy = MotorStatus { is_moving: true, idle_ms: Some(0) };
    let stale = MotorStatus { is_moving: false, idle_ms: Some(9500) };
    p.run_frame(&f, &busy, 100);
    assert_eq!(p.run_frame(&f, &idle(), 200), Some(Command::MoveLeft));
    assert_eq!(p.run_frame(&f, &stale, 300), Some(Command::SavePosition));
    assert_eq!(p.run_frame(&f, &stale, 400), None);
    assert_eq!(p.run_frame(&f, &stale, 500), None);
}

#[test]
fn small_frame_runs_without_rails() {
    let mut p = Pipeline::new();
    let frame = decode_frame(&GRAY_8X8_JPEG).unwrap();
    assert_eq!(p.run_frame(&frame, &idle(), 1000), None);
    assert_eq!(p.tick, 1);
}

#[test]
fn aligned_frame_draws_rails_aligned_in_green() {

    let mut p = Pipeline::new();
    let f = frame_with_rails(Some(200), Some(200));
    p.run_frame(&f, &idle(), 1000);

    // The rail status line region must read exactly as the message drawn
    // green on black: same glyphs, same colour, black background.
    let mut reference = Canvas::new();
    let msg = rail_message(Decision::Aligned);
    draw_text(&mut reference, 650, 420, &msg, Rgb::new(0, 255, 0));
    let mut inked = 0;
    for y in 420..438usize {
        for x in 650..(650 + 9 * msg.len()) {
            assert_eq!(p.canvas.get_pixel(x, y), reference.get_pixel(x, y), "at ({}, {})", x, y);
            if reference.get_pixel(x, y) != (0, 0, 0) {
                inked += 1;
            }
        }
    }
    assert!(inked > 0, "the message must ink pixels");
}

#[test]
fn offset_frame_draws_moving_left_in_yellow() {

    let mut p = Pipeline::new();
    let f = frame_with_rails(Some(195), Some(200));
    p.run_frame(&f, &idle(), 1000);

    let mut reference = Canvas::new();
    let msg = rail_message(Decision::MoveLeft);
    draw_text(&mut reference, 650, 420, &msg, Rgb::new(255, 255, 0));
    for y in 420..438usize {
        for x in 650..(650 + 9 * msg.len()) {
            assert_eq!(p.canvas.get_pixel(x, y), reference.get_pixel(x, y), "at ({}, {})", x, y);
        }
    }
}

#[test]
fn busy_motor_draws_motor_moving_in_red() {

    let mut p = Pipeline::new();
    let f = frame_with_rails(Some(195), Some(200));
    let busy = MotorStatus { is_moving: true, idle_ms: Some(0) };
    p.run_frame(&f, &busy, 1000);

    let mut reference = Canvas::new();
    let msg = motor_message(true, false);
    draw_text(&mut reference, 650, 360, &msg, Rgb::new(255, 0, 0));
    let mut inked = 0;
    for y in 360..396usize {
        for x in 650..(650 + 9 * 14) {
            assert_eq!(p.canvas.get_pixel(x, y), reference.get_pixel(x, y), "at ({}, {})", x, y);
            if reference.get_pixel(x, y) != (0, 0, 0) {
                inked += 1;
            }
        }
    }
    assert!(inked > 0);
}

#[test]
fn stale_motor_draws_stopped_off_in_green() {

    let mut p = Pipeline::new();
    let f = frame_with_rails(Some(200), Some(200));
    let stale = MotorStatus { is_moving: false, idle_ms: Some(9500) };
    p.run_frame(&f, &stale, 1000);

    let mut reference = Canvas::new();
    let msg = motor_message(false, true);
    draw_text(&mut reference, 650, 360, &msg, Rgb::new(0, 255, 0));
    for y in 360..396usize {
        for x in 650..(650 + 9 * 14) {
            assert_eq!(p.canvas.get_pixel(x, y), reference.get_pixel(x, y), "at ({}, {})", x, y);
        }
    }
}

#[test]
fn camera_image_stands_on_the_canvas() {
    let mut p = Pipeline::new();
    let mut f = frame_with_rails(Some(200), Some(200));
    // A distinctive pixel well clear of the overlay bands.
    let i = (100 * W + 300) * 3;
    f.pixels[i] = 11;
    f.pixels[i + 1] = 22;
    f.pixels[i + 2] = 33;
    p.run_frame(&f, &idle(), 1000);
    assert_eq!(p.canvas.get_pixel(300, 100), (11, 22, 33));
    assert_eq!(p.canvas.get_pixel(10, 10), (0, 0, 0));
    // The rail pixel itself sits in a debug band; the column next to the
    // bands still shows the frame.
    assert_eq!(p.canvas.get_pixel(200, TABLE_RAIL_Y - 60), (0, 0, 0));
}
