use camera_display::decode::DecodedFrame;
use camera_display::detect::{
    EDGE_SKIP, LAYOUT_RAIL_Y, RAIL_PAIR_WIDTH, TABLE_RAIL_Y, brightness_from_px, detect,
    find_rail, row_candidates,
};

const W: usize = 640;
const H: usize = 480;

fn black_frame() -> DecodedFrame {
    DecodedFrame { width: W, height: H, pixels: vec![0u8; W * H * 3] }
}

fn paint(frame: &mut DecodedFrame, x: usize, y: usize, v: u8) {
    let i = (y * W + x) * 3;
    frame.pixels[i] = v;
    frame.pixels[i + 1] = v;
    frame.pixels[i + 2] = v;
}

fn rails_at(frame: &mut DecodedFrame, y: usize, left: usize) {
    paint(frame, left, y, 255);
    paint(frame, left + RAIL_PAIR_WIDTH, y, 255);
}

#[test]
fn brightness_formula() {
    assert_eq!(brightness_from_px(0, 0, 0), 0);
    assert_eq!(brightness_from_px(255, 255, 255), 255);
    // (3*60 + 4*90 + 30) / 6 = 95
    assert_eq!(brightness_from_px(60, 90, 30), 95);
    // (3*255 + 4*255 + 0) / 6 = 297, clamped
    assert_eq!(brightness_from_px(255, 255, 0), 255);
}

#[test]
fn aligned_rails_detected() {
    let mut f = black_frame();
    rails_at(&mut f, TABLE_RAIL_Y, 200);
    rails_at(&mut f, LAYOUT_RAIL_Y, 200);
    let obs = detect(&f);
    assert_eq!(obs.table_x, Some(200));
    assert_eq!(obs.layout_x, Some(200));
}

#[test]
fn offset_rails_detected() {
    let mut f = black_frame();
    rails_at(&mut f, TABLE_RAIL_Y, 195);
    rails_at(&mut f, LAYOUT_RAIL_Y, 200);
    let obs = detect(&f);
    assert_eq!(obs.table_x, Some(195));
    assert_eq!(obs.layout_x, Some(200));
}

#[test]
fn wide_rail_reports_run_center() {
    let mut f = black_frame();
    // A five-column rail starting at 200 paired with one at the fixed
    // separation: the run is 200..=204, its centre (200 + 205) / 2 = 202.
    for x in 200..205 {
        paint(&mut f, x, TABLE_RAIL_Y, 255);
    }
    paint(&mut f, 200 + RAIL_PAIR_WIDTH, TABLE_RAIL_Y, 255);
    let obs = detect(&f);
    assert_eq!(obs.table_x, Some(202));
}

#[test]
fn detector_is_deterministic() {
    let mut f = black_frame();
    rails_at(&mut f, TABLE_RAIL_Y, 123 + EDGE_SKIP);
    rails_at(&mut f, LAYOUT_RAIL_Y, 150 + EDGE_SKIP);
    let a = detect(&f);
    let b = detect(&f);
    assert_eq!(a, b);
}

#[test]
fn lone_rail_without_partner_is_missed() {
    let mut f = black_frame();
    paint(&mut f, 200, LAYOUT_RAIL_Y, 255);
    let obs = detect(&f);
    assert_eq!(obs.layout_x, None);
}

#[test]
fn rails_inside_edge_margin_are_ignored() {
    let mut f = black_frame();
    // The pair starts left of the edge margin, so the scan never sees it.
    rails_at(&mut f, TABLE_RAIL_Y, EDGE_SKIP - 10);
    let obs = detect(&f);
    assert_eq!(obs.table_x, None);
}

#[test]
fn reported_centre_respects_margins() {
    for left in [EDGE_SKIP, 150, 300, W - RAIL_PAIR_WIDTH - EDGE_SKIP - 1] {
        let mut f = black_frame();
        rails_at(&mut f, TABLE_RAIL_Y, left);
        let obs = detect(&f);
        let c = obs.table_x.expect("rail pair in window must be found") as usize;
        assert!(c >= EDGE_SKIP);
        assert!(c <= W - EDGE_SKIP - RAIL_PAIR_WIDTH);
    }
}

#[test]
fn short_frame_yields_no_observation() {
    let f = DecodedFrame { width: 8, height: 8, pixels: vec![0u8; 8 * 8 * 3] };
    let obs = detect(&f);
    assert_eq!(obs.table_x, None);
    assert_eq!(obs.layout_x, None);
}

#[test]
fn candidate_mask_keeps_brightest_band() {
    let mut f = black_frame();
    // Grey v has luminance (3v + 4v + v) / 6 = 4v/3: these columns come
    // out as 200, 173 and 133, and the cut is 200 - 200*14/100 = 172.
    paint(&mut f, 100, TABLE_RAIL_Y, 150);
    paint(&mut f, 101, TABLE_RAIL_Y, 130);
    paint(&mut f, 102, TABLE_RAIL_Y, 100);
    let cand = row_candidates(&f, TABLE_RAIL_Y);
    assert!(cand[100]);
    assert!(cand[101]);
    assert!(!cand[102]);
    assert!(!cand[0]);
}

#[test]
fn find_rail_on_narrow_mask_is_none() {
    let cand = vec![true; RAIL_PAIR_WIDTH + 2 * EDGE_SKIP - 1];
    assert_eq!(find_rail(&cand, EDGE_SKIP, RAIL_PAIR_WIDTH), None);
}
