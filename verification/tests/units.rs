use gif_level::decimal::u32_decimal;
use gif_level::events::{anchor_for, Anchor};
use gif_level::frame::frame_from_bytes;
use gif_level::pixel::{is_solid, pixel_color_to_blend_color, Pixel};

fn p(r: u8, g: u8, b: u8, a: u8) -> Pixel {
    Pixel { r, g, b, a }
}

#[test]
fn solid_needs_every_color_channel_above_threshold() {
    assert!(is_solid(p(171, 171, 171, 0)));
    assert!(is_solid(p(255, 255, 255, 255)));
    assert!(!is_solid(p(170, 255, 255, 255)));
    assert!(!is_solid(p(255, 170, 255, 255)));
    assert!(!is_solid(p(255, 255, 170, 255)));
    assert!(!is_solid(p(0, 0, 0, 255)));
}

#[test]
fn alpha_is_ignored_for_animation() {
    assert!(is_solid(p(200, 200, 200, 0)));
}

#[test]
fn blend_color_packs_red_low() {
    assert_eq!(pixel_color_to_blend_color(p(1, 2, 3, 9)), 1 + 2 * 256 + 3 * 65536);
    assert_eq!(pixel_color_to_blend_color(p(255, 255, 255, 0)), 0x00FF_FFFF);
    assert_eq!(pixel_color_to_blend_color(p(0, 0, 0, 0)), 0);
}

#[test]
fn anchor_alternates_from_the_starting_parity() {
    assert_eq!(anchor_for(0, 0), Anchor::Hidden);
    assert_eq!(anchor_for(1, 0), Anchor::Visible);
    assert_eq!(anchor_for(2, 0), Anchor::Hidden);
    assert_eq!(anchor_for(3, 0), Anchor::Visible);
    assert_eq!(anchor_for(0, 1), Anchor::Visible);
    assert_eq!(anchor_for(1, 1), Anchor::Hidden);
    assert_eq!(anchor_for(2, 1), Anchor::Visible);
    assert_eq!(anchor_for(3, 1), Anchor::Hidden);
}

#[test]
fn decimal_rendering_matches_display() {
    for n in [0u32, 5, 9, 10, 11, 100, 804, 5000, 65535, 65536, u32::MAX] {
        assert_eq!(u32_decimal(n), n.to_string());
    }
}

#[test]
fn frame_from_bytes_reads_row_major_rgba() {
    let bytes: Vec<u8> = vec![
        1, 2, 3, 4, 5, 6, 7, 8, // row 0
        9, 10, 11, 12, 13, 14, 15, 16, // row 1
    ];
    let f = frame_from_bytes(2, 2, &bytes);
    assert_eq!((f.width, f.height), (2, 2));
    assert_eq!(f.pixels[0][0], p(1, 2, 3, 4));
    assert_eq!(f.pixels[0][1], p(5, 6, 7, 8));
    assert_eq!(f.pixels[1][0], p(9, 10, 11, 12));
    assert_eq!(f.pixels[1][1], p(13, 14, 15, 16));
}
