//! Tests of text measurement and score formatting.

use mato::text::{points_text, text_width};

#[test]
fn points_text_renders_decimal_digits() {
    assert_eq!(points_text(0), b"0".to_vec());
    assert_eq!(points_text(7), b"7".to_vec());
    assert_eq!(points_text(10), b"10".to_vec());
    assert_eq!(points_text(105), b"105".to_vec());
    assert_eq!(points_text(12345), b"12345".to_vec());
    assert_eq!(points_text(u32::MAX), b"4294967295".to_vec());
}

#[test]
fn text_width_counts_glyphs_and_gaps() {
    // Four glyphs of 8 pixels at scale 6, with three gaps of 6 pixels.
    assert_eq!(text_width("Mato", 6), 4 * 8 * 6 + 3 * 6);
    // Nine glyphs at scale 3, eight gaps.
    assert_eq!(text_width(&b"GAME OVER"[..], 3), 9 * 8 * 3 + 8 * 3);
    // A single glyph at scale 1 has no gap.
    assert_eq!(text_width("M", 1), 8);
}
