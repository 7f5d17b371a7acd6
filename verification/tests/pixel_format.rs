use camera_display::PipelineError;
use camera_display::pixel::{ChannelLayout, PixelLayout, pack, unpack};

fn wide_layout() -> PixelLayout {
    // The 32-bit layout observed on target hardware: blue at bit 0, green
    // at bit 8, red at bit 16, alpha at bit 24.
    PixelLayout {
        red: ChannelLayout { offset: 16, length: 8 },
        green: ChannelLayout { offset: 8, length: 8 },
        blue: ChannelLayout { offset: 0, length: 8 },
        alpha: ChannelLayout { offset: 24, length: 8 },
    }
}

fn rgb565_layout() -> PixelLayout {
    PixelLayout {
        red: ChannelLayout { offset: 11, length: 5 },
        green: ChannelLayout { offset: 5, length: 6 },
        blue: ChannelLayout { offset: 0, length: 5 },
        alpha: ChannelLayout { offset: 0, length: 0 },
    }
}

#[test]
fn pack_wide_emits_bgr_order() {
    let bytes = pack(&wide_layout(), 3, 10, 20, 30).unwrap();
    assert_eq!(bytes, vec![30, 20, 10]);
}

#[test]
fn pack_wide_four_bytes_alpha_zero() {
    let bytes = pack(&wide_layout(), 4, 1, 2, 3).unwrap();
    assert_eq!(bytes, vec![3, 2, 1, 0]);
}

#[test]
fn wide_roundtrip_exact() {
    let layout = wide_layout();
    for &(r, g, b) in &[(0u8, 0u8, 0u8), (255, 255, 255), (1, 128, 254), (37, 99, 200)] {
        for bpp in [3usize, 4] {
            let bytes = pack(&layout, bpp, r, g, b).unwrap();
            assert_eq!(unpack(&bytes, &layout, bpp), (r, g, b));
        }
    }
}

#[test]
fn wide_roundtrip_swapped_channels() {
    // A layout with red low and blue high must round-trip just the same.
    let layout = PixelLayout {
        red: ChannelLayout { offset: 0, length: 8 },
        green: ChannelLayout { offset: 16, length: 8 },
        blue: ChannelLayout { offset: 24, length: 8 },
        alpha: ChannelLayout { offset: 8, length: 8 },
    };
    let bytes = pack(&layout, 3, 200, 100, 50).unwrap();
    assert_eq!(unpack(&bytes, &layout, 3), (200, 100, 50));
}

#[test]
fn rgb565_pack_exact_bytes() {
    // r=255 -> 31 at bit 11, g=128 -> 32 at bit 5, b=0 -> 0: word 0xFC00,
    // emitted low byte first.
    let bytes = pack(&rgb565_layout(), 2, 255, 128, 0).unwrap();
    assert_eq!(bytes, vec![0x00, 0xFC]);
}

#[test]
fn rgb565_roundtrip_within_quantization_step() {
    let layout = rgb565_layout();
    for r in (0u16..=255).step_by(7) {
        let (r, g, b) = (r as u8, r.wrapping_mul(3) as u8, 255 - r as u8);
        let bytes = pack(&layout, 2, r, g, b).unwrap();
        let (ur, ug, ub) = unpack(&bytes, &layout, 2);
        assert!(ur <= r && (r - ur) < 8, "red {} -> {}", r, ur);
        assert!(ug <= g && (g - ug) < 4, "green {} -> {}", g, ug);
        assert!(ub <= b && (b - ub) < 8, "blue {} -> {}", b, ub);
    }
}

#[test]
fn unsupported_bpp_is_error() {
    for bpp in [0usize, 1, 5, 8] {
        assert_eq!(
            pack(&wide_layout(), bpp, 1, 2, 3),
            Err(PipelineError::UnsupportedFramebufferFormat)
        );
    }
}
