use grapher3d::graph::{
    axis_visibility, AxisVisibility, GraphOptions, LightingPreset, RenderingMode, Rgb888,
    SurfacePalette,
};
use grapher3d::surface::{ResolutionPreset, MAX_COLUMNS, MAX_ROWS};

#[test]
fn rendering_modes_cycle_in_both_directions() {
    assert_eq!(RenderingMode::Wireframe.next(), RenderingMode::Solid);
    assert_eq!(RenderingMode::Solid.next(), RenderingMode::Wireframe);
    assert_eq!(RenderingMode::Wireframe.previous(), RenderingMode::Solid);
}

#[test]
fn rgb888_conversion_uses_bounded_rgb565_channels() {
    assert_eq!(Rgb888 { red: 0, green: 0, blue: 0 }.to_rgb565(), 0x0000);
    assert_eq!(Rgb888 { red: 255, green: 255, blue: 255 }.to_rgb565(), 0xffff);
    assert_eq!(Rgb888 { red: 255, green: 0, blue: 0 }.to_rgb565(), 0xf800);
    assert_eq!(Rgb888 { red: 0, green: 255, blue: 0 }.to_rgb565(), 0x07e0);
    assert_eq!(Rgb888 { red: 0, green: 0, blue: 255 }.to_rgb565(), 0x001f);
    assert_eq!(Rgb888 { red: 128, green: 192, blue: 255 }.to_rgb565(), 0x861f);
}

#[test]
fn graph_options_keep_the_expected_compact_layout() {
    assert_eq!(core::mem::size_of::<Rgb888>(), 3);
    assert_eq!(core::mem::size_of::<GraphOptions>(), 12);
    assert_eq!(GraphOptions::default().custom_rgb, Rgb888::default_custom());
}

#[test]
fn axes_follow_the_zero_crossings_of_the_domain() {
    assert_eq!(axis_visibility(true, true), AxisVisibility { x: true, y: true, z: true });
    // Domain x in [1, 2], y in [-2, 2]: only the X axis (the line y = 0) is inside.
    assert_eq!(axis_visibility(false, true), AxisVisibility { x: true, y: false, z: false });
    assert_eq!(axis_visibility(true, false), AxisVisibility { x: false, y: true, z: false });
}

#[test]
fn appearance_defaults_and_cycles_are_bounded() {
    let mut options = GraphOptions::default();
    assert_eq!(options.lighting, LightingPreset::Standard);
    assert_eq!(options.surface_palette, SurfacePalette::Blue);
    options.lighting = options.lighting.previous();
    options.surface_palette = options.surface_palette.previous();
    assert_eq!(options.lighting, LightingPreset::Strong);
    assert_eq!(options.surface_palette, SurfacePalette::Custom);
    assert_eq!(options.lighting.next(), LightingPreset::Standard);
    assert_eq!(options.surface_palette.next(), SurfacePalette::Blue);
}

#[test]
fn built_in_and_custom_palette_cycle_is_complete_and_bounded() {
    let mut palette = SurfacePalette::Blue;
    let expected = [
        SurfacePalette::Green,
        SurfacePalette::Orange,
        SurfacePalette::Purple,
        SurfacePalette::Gray,
        SurfacePalette::Red,
        SurfacePalette::Cyan,
        SurfacePalette::Yellow,
        SurfacePalette::White,
        SurfacePalette::Custom,
        SurfacePalette::Blue,
    ];
    for next in expected {
        palette = palette.next();
        assert_eq!(palette, next);
    }
    assert_eq!(SurfacePalette::Blue.previous(), SurfacePalette::Custom);
    assert_eq!(SurfacePalette::Custom.previous(), SurfacePalette::White);
}

#[test]
fn palette_and_lighting_indices_are_positional() {
    assert_eq!(SurfacePalette::Blue.index(), 0);
    assert_eq!(SurfacePalette::Custom.index(), 9);
    assert_eq!(SurfacePalette::White.builtin_index(), Some(8));
    assert_eq!(SurfacePalette::Custom.builtin_index(), None);
    assert_eq!(LightingPreset::Strong.index(), 2);
}

#[test]
fn resolution_presets_have_exact_bounded_topology() {
    assert_eq!((ResolutionPreset::Low.columns(), ResolutionPreset::Low.rows()), (17, 13));
    assert_eq!(ResolutionPreset::Low.triangle_count(), 384);
    assert_eq!(
        (ResolutionPreset::Standard.columns(), ResolutionPreset::Standard.rows()),
        (25, 19)
    );
    assert_eq!(ResolutionPreset::Standard.triangle_count(), 864);
    assert_eq!((ResolutionPreset::High.columns(), ResolutionPreset::High.rows()), (33, 25));
    assert_eq!(ResolutionPreset::High.triangle_count(), 1_536);
    assert!(ResolutionPreset::High.columns() <= MAX_COLUMNS);
    assert!(ResolutionPreset::High.rows() <= MAX_ROWS);
}

#[test]
fn resolution_cycle_returns_after_three_steps() {
    let mut preset = ResolutionPreset::Standard;
    preset = preset.next();
    assert_eq!(preset, ResolutionPreset::High);
    preset = preset.next();
    assert_eq!(preset, ResolutionPreset::Low);
    preset = preset.next();
    assert_eq!(preset, ResolutionPreset::Standard);
    assert_eq!(ResolutionPreset::Low.previous(), ResolutionPreset::High);
    assert_eq!(ResolutionPreset::High.previous().next(), ResolutionPreset::High);
}
