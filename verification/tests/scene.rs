use grapher3d::keys::Color;
use grapher3d::raster::{LabelKind, ProjectedLine, ScreenPoint, BAND_HEIGHT, SCREEN_WIDTH};
use grapher3d::scene::{
    add_axis_label, consider_numeric_candidate, draw_surface, render_band, select_numeric_labels,
    LineLayer, NumericCandidates, WorldGeometry, MAX_WORLD_LINES,
};

const TEXT: Color = Color { rgb565: 0x630c };
const WHITE: Color = Color { rgb565: 0xffff };
const GRID: Color = Color { rgb565: 0xd69a };

fn point(x: i16, y: i16) -> ScreenPoint {
    ScreenPoint { x, y }
}

fn candidates_at(points: &[(i16, i16)], surface: &[ScreenPoint]) -> NumericCandidates {
    let mut candidates = NumericCandidates::new();
    for (index, &(x, y)) in points.iter().enumerate() {
        consider_numeric_candidate(
            &mut candidates,
            Some(point(x, y)),
            true,
            index as u32,
            b"1\0".to_vec(),
            surface,
        );
    }
    candidates
}

fn colored(pixels: &[Color], band_y: usize, background: Color) -> Vec<(usize, usize)> {
    let mut out = Vec::new();
    for (index, pixel) in pixels.iter().enumerate() {
        if *pixel != background {
            out.push((index % SCREEN_WIDTH, band_y + index / SCREEN_WIDTH));
        }
    }
    out
}

#[test]
fn candidate_selection_limits_each_axis_to_three_labels() {
    let candidates = candidates_at(&[(40, 60), (100, 60), (160, 60), (220, 60), (40, 150)], &[]);
    let mut geometry = WorldGeometry::new();
    select_numeric_labels(&mut geometry, candidates, TEXT);
    assert_eq!(geometry.labels().len(), 3);
    for index in 0..3 {
        assert_eq!(geometry.labels().label(index).kind, LabelKind::Number);
    }
}

#[test]
fn selection_prefers_clearance_then_spread() {
    let surface = [point(40, 50)];
    let candidates = candidates_at(&[(40, 60), (200, 150)], &surface);
    let mut geometry = WorldGeometry::new();
    select_numeric_labels(&mut geometry, candidates, TEXT);
    assert_eq!(geometry.labels().len(), 2);
    assert_eq!(geometry.labels().label(0).anchor, point(200, 150));
    assert_eq!(geometry.labels().label(1).anchor, point(40, 60));
}

#[test]
fn numeric_candidates_need_depth_a_box_and_surface_clearance() {
    let surface = [point(46, 55)];
    let mut candidates = NumericCandidates::new();
    consider_numeric_candidate(&mut candidates, Some(point(100, 100)), false, 0, b"1\0".to_vec(), &surface);
    consider_numeric_candidate(&mut candidates, None, true, 1, b"1\0".to_vec(), &surface);
    consider_numeric_candidate(&mut candidates, Some(point(-5, 100)), true, 2, b"1\0".to_vec(), &surface);
    consider_numeric_candidate(&mut candidates, Some(point(40, 60)), true, 3, b"1\0".to_vec(), &surface);
    let mut geometry = WorldGeometry::new();
    select_numeric_labels(&mut geometry, candidates, TEXT);
    assert_eq!(geometry.labels().len(), 0);
}

#[test]
fn axis_labels_keep_clear_of_the_surface() {
    let mut geometry = WorldGeometry::new();
    add_axis_label(&mut geometry, Some(point(100, 100)), true, LabelKind::AxisX, TEXT, &[point(107, 90)]);
    assert_eq!(geometry.labels().len(), 0);
    add_axis_label(&mut geometry, Some(point(100, 100)), true, LabelKind::AxisX, TEXT, &[point(140, 90)]);
    assert_eq!(geometry.labels().len(), 1);
    assert_eq!(geometry.labels().label(0).text, b"X\0".to_vec());
    add_axis_label(&mut geometry, Some(point(100, 100)), true, LabelKind::AxisX, TEXT, &[]);
    assert_eq!(geometry.labels().len(), 1);
}

#[test]
fn segments_beyond_capacity_or_unprojected_are_dropped() {
    let mut geometry = WorldGeometry::new();
    geometry.add_line(None, GRID, LineLayer::Grid);
    assert_eq!(geometry.line_count(), 0);
    let line = ProjectedLine { start: point(0, 30), end: point(10, 30) };
    for _ in 0..MAX_WORLD_LINES + 5 {
        geometry.add_line(Some(line), GRID, LineLayer::Grid);
    }
    assert_eq!(geometry.line_count(), MAX_WORLD_LINES);
    assert_eq!(geometry.line(0).layer, LineLayer::Grid);
}

#[test]
fn surface_wireframe_connects_neighbouring_samples() {
    let mut pixels = vec![WHITE; SCREEN_WIDTH * BAND_HEIGHT];
    let grid = [point(10, 25), point(14, 25), point(10, 29), point(14, 29)];
    draw_surface(&mut pixels, 24, &grid, 2, 2, TEXT);
    let mut points = colored(&pixels, 24, WHITE);
    points.sort();
    let mut expected = Vec::new();
    for x in 10..=14 {
        expected.push((x, 25));
        expected.push((x, 29));
    }
    for y in 26..=28 {
        expected.push((10, y));
        expected.push((14, y));
    }
    expected.sort();
    assert_eq!(points, expected);
}

#[test]
fn band_starts_from_the_background_and_draws_each_layer() {
    let mut pixels = vec![Color { rgb565: 1 }; SCREEN_WIDTH * BAND_HEIGHT];
    let mut geometry = WorldGeometry::new();
    render_band(&mut pixels, 24, &geometry, &[], 1, 0);
    assert!(colored(&pixels, 24, WHITE).is_empty());

    geometry.add_line(
        Some(ProjectedLine { start: point(10, 26), end: point(20, 26) }),
        GRID,
        LineLayer::Grid,
    );
    geometry.set_origin(Some(point(100, 28)));
    render_band(&mut pixels, 24, &geometry, &[], 1, 0);
    let points = colored(&pixels, 24, WHITE);
    for x in 10..=20 {
        assert!(points.contains(&(x, 26)));
        assert_eq!(pixels[2 * SCREEN_WIDTH + x], GRID);
    }
    assert_eq!(pixels[4 * SCREEN_WIDTH + 100], Color { rgb565: 0xfd20 });
    assert_eq!(points.len(), 11 + 9);
}
