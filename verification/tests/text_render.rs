use camera_display::canvas::{Canvas, Rgb};
use camera_display::text::{draw_text, fps_text, u32_decimal};

#[test]
fn decimal_digits() {
    assert_eq!(u32_decimal(0), b"0".to_vec());
    assert_eq!(u32_decimal(7), b"7".to_vec());
    assert_eq!(u32_decimal(42), b"42".to_vec());
    assert_eq!(u32_decimal(12345), b"12345".to_vec());
    assert_eq!(u32_decimal(4294967295), b"4294967295".to_vec());
}

#[test]
fn fps_readout_format() {
    assert_eq!(fps_text(1142), b"FPS: 11.42".to_vec());
    assert_eq!(fps_text(7), b"FPS: 0.07".to_vec());
    assert_eq!(fps_text(30000), b"FPS: 300.00".to_vec());
}

#[test]
fn glyph_inks_pixels_inside_its_cell() {
    let mut c = Canvas::new();
    draw_text(&mut c, 100, 100, b"A", Rgb::new(9, 8, 7));
    let mut inked = 0;
    for y in 0..480usize {
        for x in 0..800usize {
            let p = c.get_pixel(x, y);
            if p != (0, 0, 0) {
                assert_eq!(p, (9, 8, 7), "text pixels take the text colour");
                assert!((100..109).contains(&x) && (100..118).contains(&y));
                inked += 1;
            }
        }
    }
    assert!(inked > 0, "a letter inks at least one pixel");
}

#[test]
fn space_draws_nothing() {
    let mut c = Canvas::new();
    let before = c.data().clone();
    draw_text(&mut c, 50, 50, b" ", Rgb::new(255, 255, 255));
    assert_eq!(c.data(), &before);
}

#[test]
fn non_ascii_byte_leaves_a_blank_cell() {
    let mut c1 = Canvas::new();
    draw_text(&mut c1, 0, 0, &[200, b'X'], Rgb::new(1, 1, 1));
    let mut c2 = Canvas::new();
    draw_text(&mut c2, 0, 0, &[b' ', b'X'], Rgb::new(1, 1, 1));
    assert_eq!(c1.data(), c2.data());
}

#[test]
fn newline_advances_a_font_height() {
    let mut c1 = Canvas::new();
    draw_text(&mut c1, 30, 40, b"\nX", Rgb::new(2, 2, 2));
    let mut c2 = Canvas::new();
    draw_text(&mut c2, 30, 58, b"X", Rgb::new(2, 2, 2));
    assert_eq!(c1.data(), c2.data());
}

#[test]
fn two_letters_occupy_adjacent_cells() {
    let mut c = Canvas::new();
    draw_text(&mut c, 0, 0, b"II", Rgb::new(3, 3, 3));
    let mut first = false;
    let mut second = false;
    for y in 0..18usize {
        for x in 0..9usize {
            if c.get_pixel(x, y) != (0, 0, 0) {
                first = true;
            }
            if c.get_pixel(x + 9, y) != (0, 0, 0) {
                second = true;
            }
        }
    }
    assert!(first && second);
}
