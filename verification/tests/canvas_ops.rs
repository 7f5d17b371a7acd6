use camera_display::canvas::{CANVAS_H, CANVAS_W, Canvas, Rgb};
use camera_display::decode::DecodedFrame;

fn px(canvas: &Canvas, x: usize, y: usize) -> (u8, u8, u8) {
    canvas.get_pixel(x, y)
}

#[test]
fn new_canvas_is_black() {
    let c = Canvas::new();
    assert_eq!(c.data().len(), CANVAS_W * CANVAS_H * 3);
    assert!(c.data().iter().all(|&b| b == 0));
}

#[test]
fn set_and_get_pixel() {
    let mut c = Canvas::new();
    c.set_pixel(5, 7, Rgb::new(1, 2, 3));
    assert_eq!(px(&c, 5, 7), (1, 2, 3));
    assert_eq!(px(&c, 6, 7), (0, 0, 0));
    assert_eq!(px(&c, 5, 8), (0, 0, 0));
}

#[test]
fn out_of_bounds_writes_leave_bytes_unchanged() {
    let mut c = Canvas::new();
    c.set_pixel(3, 3, Rgb::new(9, 9, 9));
    let before = c.data().clone();
    c.set_pixel(-1, 5, Rgb::new(200, 200, 200));
    c.set_pixel(800, 0, Rgb::new(200, 200, 200));
    c.set_pixel(0, 480, Rgb::new(200, 200, 200));
    c.set_pixel(0, -3, Rgb::new(200, 200, 200));
    c.set_pixel(100000, 100000, Rgb::new(200, 200, 200));
    assert_eq!(c.data(), &before);
}

#[test]
fn fill_rect_paints_interior_only() {
    let mut c = Canvas::new();
    c.fill_rect(10, 20, 3, 2, Rgb::new(7, 8, 9));
    for y in 20..22 {
        for x in 10..13 {
            assert_eq!(px(&c, x, y), (7, 8, 9));
        }
    }
    assert_eq!(px(&c, 9, 20), (0, 0, 0));
    assert_eq!(px(&c, 13, 20), (0, 0, 0));
    assert_eq!(px(&c, 10, 19), (0, 0, 0));
    assert_eq!(px(&c, 10, 22), (0, 0, 0));
}

#[test]
fn fill_rect_clips_to_canvas() {
    let mut c = Canvas::new();
    c.fill_rect(-5, -5, 10, 10, Rgb::new(50, 60, 70));
    assert_eq!(px(&c, 0, 0), (50, 60, 70));
    assert_eq!(px(&c, 4, 4), (50, 60, 70));
    assert_eq!(px(&c, 5, 0), (0, 0, 0));
    assert_eq!(px(&c, 0, 5), (0, 0, 0));
}

#[test]
fn line_paints_endpoints_and_stays_in_bbox() {
    let mut c = Canvas::new();
    c.line(10, 10, 20, 15, Rgb::new(255, 0, 255));
    assert_eq!(px(&c, 10, 10), (255, 0, 255));
    assert_eq!(px(&c, 20, 15), (255, 0, 255));
    for y in 0..CANVAS_H {
        for x in 0..CANVAS_W {
            let p = px(&c, x, y);
            if p != (0, 0, 0) {
                assert!((10..=20).contains(&x) && (10..=15).contains(&y));
                assert_eq!(p, (255, 0, 255));
            }
        }
    }
}

#[test]
fn horizontal_line_is_solid() {
    let mut c = Canvas::new();
    c.line(0, 346, 639, 346, Rgb::new(1, 1, 1));
    for x in 0..=639 {
        assert_eq!(px(&c, x, 346), (1, 1, 1));
    }
    assert_eq!(px(&c, 640, 346), (0, 0, 0));
}

#[test]
fn triangle_fills_center_not_outside() {
    let mut c = Canvas::new();
    c.triangle(100, 100, 140, 100, 120, 140, Rgb::new(0, 255, 0), None);
    assert_eq!(px(&c, 120, 110), (0, 255, 0));
    assert_eq!(px(&c, 100, 100), (0, 255, 0));
    assert_eq!(px(&c, 99, 100), (0, 0, 0));
    assert_eq!(px(&c, 120, 141), (0, 0, 0));
    assert_eq!(px(&c, 100, 140), (0, 0, 0));
}

#[test]
fn blit_copies_frame_channels_unswapped() {
    let mut c = Canvas::new();
    let frame = DecodedFrame {
        width: 2,
        height: 2,
        pixels: vec![1, 2, 3, 4, 5, 6, 7, 8, 9, 10, 11, 12],
    };
    c.blit_frame(&frame);
    assert_eq!(px(&c, 0, 0), (1, 2, 3));
    assert_eq!(px(&c, 1, 0), (4, 5, 6));
    assert_eq!(px(&c, 0, 1), (7, 8, 9));
    assert_eq!(px(&c, 1, 1), (10, 11, 12));
    assert_eq!(px(&c, 2, 0), (0, 0, 0));
    assert_eq!(px(&c, 0, 2), (0, 0, 0));
}

#[test]
fn rectangle_stroke_ring_around_fill() {
    let mut c = Canvas::new();
    c.rectangle(10, 10, 6, 6, Rgb::new(1, 1, 1), Rgb::new(2, 2, 2), 1);
    assert_eq!(px(&c, 10, 10), (2, 2, 2));
    assert_eq!(px(&c, 15, 15), (2, 2, 2));
    assert_eq!(px(&c, 12, 10), (2, 2, 2));
    assert_eq!(px(&c, 11, 11), (1, 1, 1));
    assert_eq!(px(&c, 14, 14), (1, 1, 1));
    assert_eq!(px(&c, 9, 10), (0, 0, 0));
    assert_eq!(px(&c, 16, 12), (0, 0, 0));
}

#[test]
fn rectangle_zero_stroke_width_is_plain_fill() {
    let mut c1 = Canvas::new();
    c1.rectangle(5, 5, 4, 3, Rgb::new(8, 8, 8), Rgb::new(9, 9, 9), 0);
    let mut c2 = Canvas::new();
    c2.fill_rect(5, 5, 4, 3, Rgb::new(8, 8, 8));
    assert_eq!(c1.data(), c2.data());
}

#[test]
fn rectangle_thick_stroke_swallows_interior() {
    let mut c = Canvas::new();
    c.rectangle(0, 0, 4, 4, Rgb::new(1, 1, 1), Rgb::new(2, 2, 2), 2);
    for y in 0..4 {
        for x in 0..4 {
            assert_eq!(px(&c, x, y), (2, 2, 2));
        }
    }
}

#[test]
fn vertical_line_is_solid() {
    let mut c = Canvas::new();
    c.line(100, 30, 100, 20, Rgb::new(5, 5, 5));
    for y in 20..=30 {
        assert_eq!(px(&c, 100, y), (5, 5, 5));
    }
    assert_eq!(px(&c, 100, 19), (0, 0, 0));
    assert_eq!(px(&c, 100, 31), (0, 0, 0));
    assert_eq!(px(&c, 99, 25), (0, 0, 0));
}

#[test]
fn triangle_stroke_outlines_vertices_and_fills_interior() {
    let mut c = Canvas::new();
    c.triangle(100, 100, 140, 100, 120, 140, Rgb::new(0, 255, 0), Some(Rgb::new(0, 100, 0)));
    assert_eq!(px(&c, 100, 100), (0, 100, 0));
    assert_eq!(px(&c, 140, 100), (0, 100, 0));
    assert_eq!(px(&c, 120, 140), (0, 100, 0));
    // A pixel inside the triangle but outside all three edge boxes'
    // one-pixel-wide diagonals still shows... the top edge's box spans the
    // whole top; pick a pixel below it and between the slanted edges.
    for y in 0..CANVAS_H {
        for x in 0..CANVAS_W {
            let p = px(&c, x, y);
            assert!(
                p == (0, 0, 0) || p == (0, 255, 0) || p == (0, 100, 0),
                "unexpected colour at ({}, {})",
                x,
                y
            );
        }
    }
}
