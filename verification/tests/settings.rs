use grapher3d::graph::{GraphOptions, LightingPreset, RenderingMode, SurfacePalette};
use grapher3d::keys::{EVENT_CLEAR, EVENT_DOT, EVENT_EXE, EVENT_FIVE, EVENT_MINUS, EVENT_ONE, EVENT_SIX, EVENT_TWO, EVENT_ZERO};
use grapher3d::settings::{
    parse_color_channel, AppearanceItem, CustomColorItem, DomainField, NumberText, NumericError,
    SettingsAction, SettingsItem, SettingsPage, SettingsState, CUSTOM_COLOR_STEP,
    NUMERIC_CAPACITY,
};
use grapher3d::surface::{DomainError, ResolutionPreset};

const DEFAULT_X_MIN_TEXT: &[u8] = b"-3.141593";

fn move_to(state: &mut SettingsState, item: SettingsItem) {
    while state.selected_item().index() < item.index() {
        assert_eq!(state.select_next(), SettingsAction::Redraw);
    }
}

fn enter_domain(state: &mut SettingsState, options: &mut GraphOptions) {
    move_to(state, SettingsItem::Domain);
    assert_eq!(state.activate(options, DEFAULT_X_MIN_TEXT), SettingsAction::Redraw);
    assert_eq!(state.page(), SettingsPage::Domain);
}

fn enter_appearance(state: &mut SettingsState, options: &mut GraphOptions) {
    assert_eq!(state.activate(options, DEFAULT_X_MIN_TEXT), SettingsAction::Redraw);
    assert_eq!(state.page(), SettingsPage::Appearance);
}

fn enter_custom_color(state: &mut SettingsState, options: &mut GraphOptions) {
    enter_appearance(state, options);
    assert_eq!(state.select_next(), SettingsAction::Redraw);
    options.surface_palette = SurfacePalette::Custom;
    assert_eq!(state.activate(options, DEFAULT_X_MIN_TEXT), SettingsAction::Redraw);
    assert_eq!(state.page(), SettingsPage::CustomColor);
}

fn replace_edit_text(state: &mut SettingsState, events: &[u16]) {
    let mut options = GraphOptions::default();
    assert_eq!(state.activate(&mut options, DEFAULT_X_MIN_TEXT), SettingsAction::Redraw);
    assert!(state.is_editing());
    assert_eq!(state.handle_editor_event(EVENT_CLEAR), SettingsAction::Redraw);
    for value in events {
        assert_eq!(state.handle_editor_event(*value), SettingsAction::Redraw);
    }
}

#[test]
fn mode_and_boolean_rows_update_graph_options() {
    let mut state = SettingsState::new();
    let mut options = GraphOptions::default();
    assert_eq!(state.adjust_right(&mut options), SettingsAction::GraphChanged);
    assert_eq!(options.rendering_mode, RenderingMode::Solid);
    assert_eq!(state.adjust_left(&mut options), SettingsAction::GraphChanged);
    assert_eq!(options.rendering_mode, RenderingMode::Wireframe);

    assert_eq!(state.select_next(), SettingsAction::Redraw);
    assert_eq!(state.selected_item(), SettingsItem::GroundGrid);
    assert_eq!(state.adjust_left(&mut options), SettingsAction::GraphChanged);
    assert!(!options.show_grid);
    assert_eq!(state.adjust_left(&mut options), SettingsAction::Unchanged);
    assert_eq!(state.activate(&mut options, DEFAULT_X_MIN_TEXT), SettingsAction::GraphChanged);
    assert!(options.show_grid);

    assert_eq!(state.select_next(), SettingsAction::Redraw);
    assert_eq!(state.activate(&mut options, DEFAULT_X_MIN_TEXT), SettingsAction::GraphChanged);
    assert!(!options.show_axes);
    assert_eq!(state.select_next(), SettingsAction::Redraw);
    assert_eq!(state.activate(&mut options, DEFAULT_X_MIN_TEXT), SettingsAction::GraphChanged);
    assert!(!options.show_ticks);
    assert_eq!(state.select_next(), SettingsAction::Redraw);
    assert_eq!(state.activate(&mut options, DEFAULT_X_MIN_TEXT), SettingsAction::GraphChanged);
    assert!(!options.show_labels);
}

#[test]
fn appearance_page_cycles_lighting_and_color_without_resampling() {
    let mut state = SettingsState::new();
    let mut options = GraphOptions::default();
    assert_eq!(state.activate(&mut options, DEFAULT_X_MIN_TEXT), SettingsAction::Redraw);
    assert_eq!(state.page(), SettingsPage::Appearance);
    assert_eq!(state.selected_appearance_item(), AppearanceItem::Lighting);

    assert_eq!(state.adjust_right(&mut options), SettingsAction::GraphChanged);
    assert_eq!(options.lighting, LightingPreset::Soft);
    assert_eq!(state.activate(&mut options, DEFAULT_X_MIN_TEXT), SettingsAction::GraphChanged);
    assert_eq!(options.lighting, LightingPreset::Strong);
    assert_eq!(state.select_next(), SettingsAction::Redraw);
    assert_eq!(state.selected_appearance_item(), AppearanceItem::SurfaceColor);
    assert_eq!(state.adjust_left(&mut options), SettingsAction::GraphChanged);
    assert_eq!(options.surface_palette, SurfacePalette::Custom);
    assert_eq!(state.select_next(), SettingsAction::Redraw);
    assert_eq!(state.selected_appearance_item(), AppearanceItem::Resolution);
    assert_eq!(state.adjust_right(&mut options), SettingsAction::ResolutionChanged);
    assert_eq!(state.back(), SettingsAction::Redraw);
    assert_eq!(state.page(), SettingsPage::Main);
}

#[test]
fn appearance_resolution_cycles_and_reports_surface_resample_action() {
    let mut state = SettingsState::new();
    let mut options = GraphOptions::default();
    assert_eq!(state.activate(&mut options, DEFAULT_X_MIN_TEXT), SettingsAction::Redraw);
    assert_eq!(state.select_next(), SettingsAction::Redraw);
    assert_eq!(state.select_next(), SettingsAction::Redraw);
    assert_eq!(state.selected_appearance_item(), AppearanceItem::Resolution);
    assert_eq!(state.adjust_left(&mut options), SettingsAction::ResolutionChanged);
    assert_eq!(options.resolution, ResolutionPreset::Low);
    assert_eq!(state.adjust_right(&mut options), SettingsAction::ResolutionChanged);
    assert_eq!(options.resolution, ResolutionPreset::Standard);
    assert_eq!(state.adjust_right(&mut options), SettingsAction::ResolutionChanged);
    assert_eq!(options.resolution, ResolutionPreset::High);
    assert_eq!(state.adjust_right(&mut options), SettingsAction::ResolutionChanged);
    assert_eq!(options.resolution, ResolutionPreset::Low);
    assert_eq!(state.select_next(), SettingsAction::Redraw);
    assert_eq!(state.selected_appearance_item(), AppearanceItem::AutoRotate);
    assert_eq!(state.adjust_right(&mut options), SettingsAction::AutoRotateChanged);
}

#[test]
fn custom_color_adjustment_is_temporary_and_saturates() {
    let mut state = SettingsState::new();
    let mut options = GraphOptions::default();
    let active = options.custom_rgb;
    enter_custom_color(&mut state, &mut options);

    assert_eq!(state.custom_color_draft(), active);
    assert_eq!(state.adjust_right(&mut options), SettingsAction::Redraw);
    assert_eq!(state.custom_color_draft().red, active.red + CUSTOM_COLOR_STEP);
    assert_eq!(options.custom_rgb, active);

    let mut count = 0;
    while state.adjust_right(&mut options) == SettingsAction::Redraw {
        count += 1;
        assert!(count < 40);
    }
    assert_eq!(state.custom_color_draft().red, 255);
    while state.adjust_left(&mut options) == SettingsAction::Redraw {}
    assert_eq!(state.custom_color_draft().red, 0);
    assert_eq!(options.custom_rgb, active);
}

#[test]
fn custom_channel_numeric_edit_validates_and_apply_commits_atomically() {
    let mut state = SettingsState::new();
    let mut options = GraphOptions::default();
    let original = options.custom_rgb;
    enter_custom_color(&mut state, &mut options);

    assert_eq!(state.activate(&mut options, DEFAULT_X_MIN_TEXT), SettingsAction::Redraw);
    assert!(state.is_editing());
    assert_eq!(state.handle_editor_event(EVENT_CLEAR), SettingsAction::Redraw);
    for value in [EVENT_TWO, EVENT_FIVE, EVENT_SIX] {
        assert_eq!(state.handle_editor_event(value), SettingsAction::Redraw);
    }
    assert_eq!(state.handle_editor_event(EVENT_EXE), SettingsAction::Redraw);
    assert_eq!(state.error(), Some(NumericError::ColorOutOfRange));
    assert!(state.is_editing());
    assert_eq!(options.custom_rgb, original);

    assert_eq!(state.handle_editor_event(EVENT_CLEAR), SettingsAction::Redraw);
    for value in [EVENT_TWO, EVENT_FIVE, EVENT_FIVE] {
        assert_eq!(state.handle_editor_event(value), SettingsAction::Redraw);
    }
    assert_eq!(state.handle_editor_event(EVENT_EXE), SettingsAction::Redraw);
    assert!(!state.is_editing());
    assert_eq!(state.custom_color_draft().red, 255);
    assert_eq!(options.custom_rgb, original);

    assert_eq!(state.select_next(), SettingsAction::Redraw);
    assert_eq!(state.select_next(), SettingsAction::Redraw);
    assert_eq!(state.select_next(), SettingsAction::Redraw);
    assert_eq!(state.selected_custom_color_item(), CustomColorItem::Apply);
    assert_eq!(state.activate(&mut options, DEFAULT_X_MIN_TEXT), SettingsAction::GraphChanged);
    assert_eq!(state.page(), SettingsPage::Appearance);
    assert_eq!(options.custom_rgb.red, 255);
    assert_eq!(options.custom_rgb.green, original.green);
    assert_eq!(options.custom_rgb.blue, original.blue);
    assert_eq!(options.surface_palette, SurfacePalette::Custom);
}

#[test]
fn custom_color_back_cancels_channel_then_whole_draft() {
    let mut state = SettingsState::new();
    let mut options = GraphOptions::default();
    let original = options.custom_rgb;
    enter_custom_color(&mut state, &mut options);
    assert_eq!(state.adjust_left(&mut options), SettingsAction::Redraw);
    assert_ne!(state.custom_color_draft(), original);

    assert_eq!(state.activate(&mut options, DEFAULT_X_MIN_TEXT), SettingsAction::Redraw);
    assert!(state.is_editing());
    assert_eq!(state.back(), SettingsAction::Redraw);
    assert!(!state.is_editing());
    assert_eq!(state.page(), SettingsPage::CustomColor);
    assert_eq!(state.back(), SettingsAction::Redraw);
    assert_eq!(state.page(), SettingsPage::Appearance);
    assert_eq!(options.custom_rgb, original);
}

#[test]
fn color_channel_parser_accepts_only_zero_through_255() {
    assert_eq!(parse_color_channel(b"0"), Some(0));
    assert_eq!(parse_color_channel(b"255"), Some(255));
    assert_eq!(parse_color_channel(b"00128"), Some(128));
    assert_eq!(parse_color_channel(b""), None);
    assert_eq!(parse_color_channel(b"256"), None);
    assert_eq!(parse_color_channel(b"-1"), None);
    assert_eq!(parse_color_channel(b"1.0"), None);
}

#[test]
fn settings_state_storage_remains_bounded() {
    assert_eq!(core::mem::size_of::<SettingsState>(), 80);
}

#[test]
fn reset_camera_is_an_external_action() {
    let mut state = SettingsState::new();
    let mut options = GraphOptions::default();
    move_to(&mut state, SettingsItem::ResetCamera);
    assert_eq!(state.activate(&mut options, DEFAULT_X_MIN_TEXT), SettingsAction::ResetCamera);
    assert_eq!(state.selected_item(), SettingsItem::ResetCamera);
}

#[test]
fn performance_readout_toggle_is_ui_only() {
    let mut state = SettingsState::new();
    let mut options = GraphOptions::default();
    move_to(&mut state, SettingsItem::Performance);
    assert!(!options.show_performance);
    assert_eq!(state.adjust_right(&mut options), SettingsAction::Redraw);
    assert!(options.show_performance);
    assert_eq!(state.adjust_left(&mut options), SettingsAction::Redraw);
    assert!(!options.show_performance);
    assert_eq!(state.activate(&mut options, DEFAULT_X_MIN_TEXT), SettingsAction::Redraw);
    assert!(options.show_performance);
}

#[test]
fn valid_domain_edit_is_returned_transactionally() {
    let mut state = SettingsState::new();
    let mut options = GraphOptions::default();
    enter_domain(&mut state, &mut options);
    replace_edit_text(&mut state, &[EVENT_MINUS, EVENT_TWO]);
    assert_eq!(state.handle_editor_event(EVENT_EXE), SettingsAction::DomainDraftReady);
    assert_eq!(state.edit_source(), b"-2");
    assert!(state.is_editing());
    state.finish_domain_edit(None);
    assert!(!state.is_editing());
    assert_eq!(state.page(), SettingsPage::Domain);
}

#[test]
fn accepting_an_unchanged_formatted_bound_does_not_round_the_domain() {
    let mut state = SettingsState::new();
    let mut options = GraphOptions::default();
    enter_domain(&mut state, &mut options);
    assert_eq!(state.activate(&mut options, DEFAULT_X_MIN_TEXT), SettingsAction::Redraw);
    assert_eq!(state.edit_source(), b"-3.141593");
    assert_eq!(state.handle_editor_event(EVENT_EXE), SettingsAction::Redraw);
    assert!(!state.is_editing());
}

#[test]
fn invalid_domain_keeps_the_active_value_and_editor_text() {
    let mut state = SettingsState::new();
    let mut options = GraphOptions::default();
    enter_domain(&mut state, &mut options);
    replace_edit_text(&mut state, &[EVENT_ONE, EVENT_ZERO]);
    assert_eq!(state.handle_editor_event(EVENT_EXE), SettingsAction::DomainDraftReady);
    state.finish_domain_edit(Some(NumericError::Domain(DomainError::Inverted)));
    assert_eq!(state.error(), Some(NumericError::Domain(DomainError::Inverted)));
    assert_eq!(state.edit_source(), b"10");
    assert!(state.is_editing());
}

#[test]
fn malformed_number_is_rejected_without_leaving_edit_mode() {
    let mut state = SettingsState::new();
    let mut options = GraphOptions::default();
    enter_domain(&mut state, &mut options);
    replace_edit_text(&mut state, &[EVENT_ONE, EVENT_DOT, EVENT_DOT, EVENT_TWO]);
    assert_eq!(state.handle_editor_event(EVENT_EXE), SettingsAction::Redraw);
    assert_eq!(state.error(), Some(NumericError::InvalidNumber));
    assert!(state.is_editing());
}

#[test]
fn back_cancels_edit_then_navigates_outward() {
    let mut state = SettingsState::new();
    let mut options = GraphOptions::default();
    enter_domain(&mut state, &mut options);
    replace_edit_text(&mut state, &[EVENT_TWO]);
    assert_eq!(state.back(), SettingsAction::Redraw);
    assert!(!state.is_editing());
    assert_eq!(state.page(), SettingsPage::Domain);
    assert_eq!(state.back(), SettingsAction::Redraw);
    assert_eq!(state.page(), SettingsPage::Main);
    assert_eq!(state.back(), SettingsAction::LeaveSettings);
}

#[test]
fn number_format_is_fixed_capacity_and_c_terminated() {
    let pi = NumberText::from_decimal(true, 3, 141_593);
    assert_eq!(pi.as_bytes(), b"-3.141593");
    assert_eq!(pi.as_c_string().last(), Some(&0));
    assert!(pi.as_bytes().len() <= NUMERIC_CAPACITY);
    assert_eq!(NumberText::from_decimal(false, 12, 500_000).as_bytes(), b"12.5");
}

#[test]
fn domain_selection_is_bounded() {
    let mut state = SettingsState::new();
    let mut options = GraphOptions::default();
    enter_domain(&mut state, &mut options);
    assert_eq!(state.select_previous(), SettingsAction::Unchanged);
    assert_eq!(state.selected_domain_field(), DomainField::XMin);
    assert_eq!(state.select_next(), SettingsAction::Redraw);
    assert_eq!(state.select_next(), SettingsAction::Redraw);
    assert_eq!(state.select_next(), SettingsAction::Redraw);
    assert_eq!(state.selected_domain_field(), DomainField::YMax);
    assert_eq!(state.select_next(), SettingsAction::Unchanged);
}

#[test]
fn rows_past_the_last_clamp_to_reset_camera() {
    assert_eq!(SettingsItem::from_index(6), SettingsItem::ResetCamera);
    assert_eq!(SettingsItem::from_index(7), SettingsItem::Performance);
    assert_eq!(SettingsItem::from_index(8), SettingsItem::ResetCamera);
    assert_eq!(SettingsItem::from_index(usize::MAX), SettingsItem::ResetCamera);
}
