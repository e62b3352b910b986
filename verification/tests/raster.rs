use grapher3d::keys::Color;
use grapher3d::raster::{
    draw_label, draw_line, draw_origin, fill_band_rect, label_rect, minimum_selected_distance_squared,
    surface_distance_squared, Label, LabelKind, LabelRect, LabelSet, ScreenPoint, BAND_HEIGHT,
    GRAPH_TOP, SCREEN_WIDTH,
};

const BLACK: Color = Color { rgb565: 0 };
const RED: Color = Color { rgb565: 0xf800 };

fn band() -> Vec<Color> {
    vec![BLACK; SCREEN_WIDTH * BAND_HEIGHT]
}

fn colored(pixels: &[Color], band_y: usize) -> Vec<(usize, usize)> {
    let mut out = Vec::new();
    for (index, pixel) in pixels.iter().enumerate() {
        if *pixel != BLACK {
            out.push((index % SCREEN_WIDTH, band_y + index / SCREEN_WIDTH));
        }
    }
    out
}

fn label(x: i16, y: i16, kind: LabelKind, value_bits: u32, text: &[u8]) -> Label {
    Label {
        anchor: ScreenPoint { x, y },
        kind,
        value_bits,
        color: RED,
        text: text.to_vec(),
    }
}

#[test]
fn rejects_labels_outside_viewport_and_over_header() {
    assert!(label_rect(ScreenPoint { x: -5, y: 100 }, LabelKind::AxisX, b"X\0").is_none());
    assert!(label_rect(
        ScreenPoint {
            x: 100,
            y: GRAPH_TOP as i16 + 5
        },
        LabelKind::AxisX,
        b"X\0"
    )
    .is_none());
    assert!(label_rect(ScreenPoint { x: 318, y: 100 }, LabelKind::AxisX, b"X\0").is_none());
}

#[test]
fn label_box_sits_beside_its_anchor() {
    assert_eq!(
        label_rect(ScreenPoint { x: 100, y: 100 }, LabelKind::Number, b"12\0"),
        Some(LabelRect { left: 104, top: 91, right: 114, bottom: 97 })
    );
    assert_eq!(
        label_rect(ScreenPoint { x: 100, y: 100 }, LabelKind::AxisZ, b"Z\0"),
        Some(LabelRect { left: 89, top: 88, right: 93, bottom: 94 })
    );
    assert!(label_rect(ScreenPoint::invalid(), LabelKind::AxisY, b"Y\0").is_none());
    assert!(label_rect(ScreenPoint { x: 100, y: 100 }, LabelKind::Number, b"\0").is_none());
}

#[test]
fn duplicate_labels_are_not_generated() {
    let mut labels = LabelSet::new();
    assert!(labels.add(label(100, 100, LabelKind::AxisX, 0, b"X\0"), true));
    assert!(!labels.add(label(100, 100, LabelKind::AxisX, 0, b"X\0"), true));
    assert_eq!(labels.len(), 1);
}

#[test]
fn overlapping_label_boxes_are_rejected() {
    let mut labels = LabelSet::new();
    assert!(labels.add(label(100, 100, LabelKind::Number, (-2.0f32).to_bits(), b"-2\0"), true));
    assert!(!labels.add(label(106, 100, LabelKind::Number, 2.0f32.to_bits(), b"2\0"), true));
    assert_eq!(labels.len(), 1);
}

#[test]
fn labels_behind_the_near_depth_or_beyond_capacity_are_rejected() {
    let mut labels = LabelSet::new();
    assert!(!labels.add(label(100, 100, LabelKind::AxisY, 0, b"Y\0"), false));
    assert_eq!(labels.len(), 0);
    let mut placed = 0;
    for row in 0..4 {
        for column in 0..4 {
            let x = 20 + 60 * column as i16;
            let y = 50 + 40 * row as i16;
            if labels.add(label(x, y, LabelKind::Number, (row * 4 + column) as u32, b"1\0"), true) {
                placed += 1;
            }
        }
    }
    assert_eq!(placed, 12);
    assert_eq!(labels.len(), 12);
    assert_eq!(labels.label(0).anchor, ScreenPoint { x: 20, y: 50 });
}

#[test]
fn horizontal_line_colors_exactly_its_pixels() {
    let mut pixels = band();
    draw_line(&mut pixels, 0, ScreenPoint { x: 10, y: 3 }, ScreenPoint { x: 14, y: 3 }, RED);
    assert_eq!(colored(&pixels, 0), vec![(10, 3), (11, 3), (12, 3), (13, 3), (14, 3)]);
}

#[test]
fn diagonal_line_is_clipped_to_the_band() {
    let mut pixels = band();
    draw_line(&mut pixels, 8, ScreenPoint { x: 0, y: 0 }, ScreenPoint { x: 20, y: 20 }, RED);
    assert_eq!(
        colored(&pixels, 8),
        (8..16).map(|k| (k, k)).collect::<Vec<_>>()
    );
}

#[test]
fn lines_with_an_unusable_end_or_outside_the_band_draw_nothing() {
    let mut pixels = band();
    draw_line(&mut pixels, 0, ScreenPoint::invalid(), ScreenPoint { x: 5, y: 5 }, RED);
    draw_line(&mut pixels, 0, ScreenPoint { x: 5, y: 30 }, ScreenPoint { x: 50, y: 40 }, RED);
    assert!(colored(&pixels, 0).is_empty());
}

#[test]
fn fill_covers_the_rectangle_inside_the_band() {
    let mut pixels = band();
    fill_band_rect(&mut pixels, 16, LabelRect { left: 5, top: 10, right: 7, bottom: 17 }, RED);
    assert_eq!(colored(&pixels, 16), vec![(5, 16), (6, 16), (7, 16), (5, 17), (6, 17), (7, 17)]);
}

#[test]
fn origin_marker_is_a_five_pixel_cross() {
    let mut pixels = band();
    draw_origin(&mut pixels, 0, Some(ScreenPoint { x: 50, y: 4 }), RED);
    let mut points = colored(&pixels, 0);
    points.sort();
    assert_eq!(
        points,
        vec![(48, 4), (49, 4), (50, 2), (50, 3), (50, 4), (50, 5), (50, 6), (51, 4), (52, 4)]
    );
    let mut untouched = band();
    draw_origin(&mut untouched, 0, None, RED);
    assert!(colored(&untouched, 0).is_empty());
}

#[test]
fn label_text_is_drawn_inside_its_box() {
    let mut pixels = band();
    let anchor = ScreenPoint { x: 100, y: 100 };
    draw_label(&mut pixels, 88, anchor, LabelKind::Number, b"1\0", RED);
    let points = colored(&pixels, 88);
    assert!(!points.is_empty());
    assert!(points.iter().all(|&(x, y)| (104..=108).contains(&x) && (91..=95).contains(&y)));
    let mut hidden = band();
    draw_label(&mut hidden, 88, ScreenPoint { x: -5, y: 100 }, LabelKind::Number, b"1\0", RED);
    assert!(colored(&hidden, 88).is_empty());
}

#[test]
fn surface_distance_measures_to_the_nearest_usable_point() {
    let rect = LabelRect { left: 10, top: 30, right: 20, bottom: 40 };
    assert_eq!(
        surface_distance_squared(rect, &[ScreenPoint { x: 25, y: 35 }, ScreenPoint::invalid()]),
        25
    );
    assert_eq!(surface_distance_squared(rect, &[ScreenPoint { x: 15, y: 35 }]), 0);
    assert_eq!(surface_distance_squared(rect, &[ScreenPoint::invalid()]), i32::MAX);
}

#[test]
fn selected_distance_uses_the_view_center_when_nothing_is_selected() {
    assert_eq!(minimum_selected_distance_squared(ScreenPoint { x: 163, y: 136 }, &[]), 25);
    assert_eq!(
        minimum_selected_distance_squared(
            ScreenPoint { x: 12, y: 10 },
            &[ScreenPoint { x: 0, y: 0 }, ScreenPoint { x: 10, y: 10 }]
        ),
        4
    );
}
