use grapher3d::raster::{
    glyph, label_rect, label_rects_overlap, text_width, LabelKind, LabelRect, ScreenPoint,
    GLYPH_HEIGHT, GLYPH_WIDTH, NUMERIC_GLYPHS,
};
use grapher3d::text::{format_render_performance, format_tick};
use grapher3d::ui::APPLICATION_DISPLAY_VERSION;

#[test]
fn font_glyphs_are_five_by_seven() {
    assert_eq!(GLYPH_WIDTH, 5);
    assert_eq!(GLYPH_HEIGHT, 7);
    for glyph in NUMERIC_GLYPHS {
        assert_eq!(glyph.len(), GLYPH_HEIGHT as usize);
        for row in glyph {
            assert!(row <= 0b11111);
        }
    }
}

#[test]
fn every_required_numeric_glyph_is_present() {
    for character in b'0'..=b'9' {
        assert!(glyph(character).is_some());
    }
    assert!(glyph(b'-').is_some());
    assert!(glyph(b'.').is_some());
    assert!(glyph(b'+').is_some());
}

#[test]
fn text_width_accounts_for_spacing_and_punctuation() {
    assert_eq!(text_width(b"7\0"), Some(5));
    assert_eq!(text_width(b"12\0"), Some(11));
    assert_eq!(text_width(b"-3\0"), Some(11));
    assert_eq!(text_width(b"0.5\0"), Some(17));
}

#[test]
fn text_without_glyphs_has_no_width() {
    assert_eq!(text_width(b"\0"), None);
    assert_eq!(text_width(b"1a\0"), None);
    assert_eq!(text_width(b"X"), Some(5));
}

#[test]
fn label_boxes_stay_clear_of_the_header_and_edges() {
    let anchor = ScreenPoint { x: 100, y: 100 };
    assert_eq!(
        label_rect(anchor, LabelKind::Number, b"12\0"),
        Some(LabelRect { left: 104, top: 91, right: 114, bottom: 97 })
    );
    assert_eq!(label_rect(ScreenPoint { x: i16::MIN, y: 0 }, LabelKind::AxisX, b"X\0"), None);
    assert_eq!(label_rect(ScreenPoint { x: 100, y: 30 }, LabelKind::AxisX, b"X\0"), None);
    assert_eq!(label_rect(ScreenPoint { x: 318, y: 100 }, LabelKind::AxisY, b"Y\0"), None);
}

#[test]
fn overlapping_label_boxes_are_detected_with_separation() {
    let first = LabelRect { left: 10, top: 10, right: 20, bottom: 16 };
    let touching = LabelRect { left: 22, top: 10, right: 30, bottom: 16 };
    let apart = LabelRect { left: 23, top: 10, right: 30, bottom: 16 };
    assert!(label_rects_overlap(first, touching, 2));
    assert!(!label_rects_overlap(first, apart, 2));
}

#[test]
fn displayed_release_version_remains_manually_fixed() {
    assert_eq!(&APPLICATION_DISPLAY_VERSION, b"v3.0.0\0");
}

#[test]
fn render_performance_text_is_bounded_and_c_terminated() {
    assert_eq!(format_render_performance(100), b"Last:100ms 10FPS\0");
    let text = format_render_performance(u32::MAX);
    assert_eq!(text.last(), Some(&0));
    assert!(text.len() <= 24);
}

#[test]
fn tick_text_shows_at_most_two_decimals() {
    assert_eq!(format_tick(false, 0, 50), b"0.5\0".to_vec());
    assert_eq!(format_tick(true, 3, 0), b"-3\0".to_vec());
    assert_eq!(format_tick(false, 1, 25), b"1.25\0".to_vec());
    assert_eq!(format_tick(false, 1, 100), b"1.0\0".to_vec());
    assert_eq!(format_tick(true, u32::MAX, 50), b"-4294967295\0".to_vec());
    assert_eq!(format_tick(false, 123_456_789, 5), b"123456789.0\0".to_vec());
    assert_eq!(format_tick(false, 12_345_678, 5), b"12345678.05\0".to_vec());
}
