use grapher3d::app::{AppState, Focus, Outcome, Redraw, Request, Tab, UpdateResult};
use grapher3d::expression::CompiledExpression;
use grapher3d::graph::{GraphOptions, LightingPreset, RenderingMode, SurfacePalette};
use grapher3d::keys::{
    EVENT_CLEAR, EVENT_EXE, EVENT_MINUS, EVENT_ONE, EVENT_TOOLBOX, EVENT_TWO, KEY_BACK, KEY_DOWN,
    KEY_EXE, KEY_LEFT, KEY_OK, KEY_RIGHT,
};
use grapher3d::settings::SettingsPage;

const BOUND_TEXT: &[u8] = b"-3.141593";

fn key(key: u8) -> u64 {
    1_u64 << key
}

fn press(app: &mut AppState, k: u8) -> Outcome {
    app.update(key(k), BOUND_TEXT)
}

fn release(app: &mut AppState) {
    let _ = app.update(0, BOUND_TEXT);
}

fn enter_equation(app: &mut AppState) {
    assert_eq!(press(app, KEY_OK).result, UpdateResult::StateChanged);
    assert_eq!(app.focus, Focus::Tabs);
    release(app);
    assert_eq!(press(app, KEY_RIGHT).result, UpdateResult::Continue);
    assert_eq!(app.selected_tab, Tab::Equation);
    release(app);
    assert_eq!(press(app, KEY_OK).result, UpdateResult::StateChanged);
    assert_eq!(app.active_tab, Tab::Equation);
    assert_eq!(app.focus, Focus::Content);
    release(app);
}

fn enter_settings(app: &mut AppState) {
    assert_eq!(app.graph_options, GraphOptions::default());
    assert_eq!(press(app, KEY_OK).result, UpdateResult::StateChanged);
    release(app);
    let _ = press(app, KEY_RIGHT);
    release(app);
    let _ = press(app, KEY_RIGHT);
    assert_eq!(app.selected_tab, Tab::Settings);
    release(app);
    assert_eq!(press(app, KEY_OK).result, UpdateResult::StateChanged);
    assert_eq!(app.active_tab, Tab::Settings);
    assert_eq!(app.focus, Focus::Content);
    release(app);
}

fn settings_move_down(app: &mut AppState, rows: usize) {
    for _ in 0..rows {
        let _ = press(app, KEY_DOWN);
        release(app);
    }
}

#[test]
fn graph_tabs_and_equation_focus_transitions() {
    let mut app = AppState::new();
    enter_equation(&mut app);
    let before = app.editor.source().len();
    assert_eq!(app.handle_editor_event(EVENT_ONE).result, UpdateResult::Continue);
    assert_eq!(app.active_tab, Tab::Equation);
    assert_eq!(app.focus, Focus::Content);
    assert_eq!(app.editor.source().len(), before + 1);
    assert_eq!(press(&mut app, KEY_OK).result, UpdateResult::StateChanged);
    assert_eq!(app.focus, Focus::Tabs);
}

#[test]
fn exe_compiles_and_returns_to_graph() {
    let mut app = AppState::new();
    enter_equation(&mut app);
    app.dirty.surface = false;
    let outcome = app.handle_editor_event(EVENT_EXE);
    assert_eq!(outcome.request, Request::CompileEquation);
    let error = CompiledExpression::compile(app.editor.source_bytes(), None).err();
    assert_eq!(app.finish_compile(error), UpdateResult::StateChanged);
    assert_eq!(app.active_tab, Tab::Graph);
    assert_eq!(app.focus, Focus::Content);
    assert!(app.dirty.surface);
}

#[test]
fn equation_back_preserves_active_expression() {
    let mut app = AppState::new();
    enter_equation(&mut app);
    app.dirty.surface = false;
    let outcome = press(&mut app, KEY_BACK);
    assert_eq!(outcome.result, UpdateResult::StateChanged);
    assert_eq!(outcome.request, Request::Nothing);
    assert_eq!(app.active_tab, Tab::Graph);
    assert!(!app.dirty.surface);
}

#[test]
fn equation_picker_back_and_ok_preserve_equation_focus_rules() {
    let mut app = AppState::new();
    enter_equation(&mut app);
    assert_eq!(app.handle_editor_event(EVENT_TOOLBOX).result, UpdateResult::Continue);
    assert!(app.editor.function_picker_open());
    assert_eq!(press(&mut app, KEY_BACK).result, UpdateResult::StateChanged);
    assert_eq!(app.active_tab, Tab::Equation);
    assert_eq!(app.focus, Focus::Content);
    assert!(!app.editor.function_picker_open());

    release(&mut app);
    let _ = app.handle_editor_event(EVENT_TOOLBOX);
    assert!(app.editor.function_picker_open());
    assert_eq!(press(&mut app, KEY_OK).result, UpdateResult::StateChanged);
    assert_eq!(app.focus, Focus::Tabs);
    assert!(!app.editor.function_picker_open());
}

#[test]
fn graph_back_exits() {
    let mut app = AppState::new();
    assert_eq!(press(&mut app, KEY_BACK).result, UpdateResult::Exit);
}

#[test]
fn camera_motion_invalidates_projection_but_not_surface_samples() {
    let mut app = AppState::new();
    app.dirty.content = false;
    app.dirty.graph = false;
    app.dirty.surface = false;
    let outcome = press(&mut app, KEY_RIGHT);
    assert_eq!(outcome.result, UpdateResult::Continue);
    assert_eq!(outcome.request, Request::ApplyCameraKeys);
    app.camera_moved();
    assert!(app.dirty.content);
    assert!(app.dirty.graph);
    assert!(!app.dirty.surface);
}

#[test]
fn settings_mode_change_dirties_hidden_graph_but_not_surface() {
    let mut app = AppState::new();
    enter_settings(&mut app);
    app.dirty.graph = false;
    app.dirty.surface = false;
    app.dirty.content = false;
    assert_eq!(press(&mut app, KEY_RIGHT).result, UpdateResult::Continue);
    assert_eq!(app.graph_options.rendering_mode, RenderingMode::Solid);
    assert!(app.dirty.graph);
    assert!(app.dirty.content);
    assert!(!app.dirty.surface);
}

#[test]
fn settings_appearance_change_dirties_graph_without_resampling() {
    let mut app = AppState::new();
    enter_settings(&mut app);
    let _ = press(&mut app, KEY_EXE);
    release(&mut app);
    assert_eq!(app.settings.page(), SettingsPage::Appearance);
    app.dirty.graph = false;
    app.dirty.surface = false;
    app.dirty.content = false;
    let _ = press(&mut app, KEY_RIGHT);
    assert_eq!(app.graph_options.lighting, LightingPreset::Soft);
    assert!(app.dirty.graph);
    assert!(app.dirty.content);
    assert!(!app.dirty.surface);
    release(&mut app);
    assert_eq!(press(&mut app, KEY_OK).result, UpdateResult::StateChanged);
    assert_eq!(app.focus, Focus::Tabs);
    assert_eq!(app.settings.page(), SettingsPage::Appearance);
}

#[test]
fn custom_color_apply_dirties_graph_without_resampling() {
    let mut app = AppState::new();
    enter_settings(&mut app);
    let _ = press(&mut app, KEY_EXE);
    release(&mut app);
    let _ = press(&mut app, KEY_DOWN);
    release(&mut app);
    let _ = press(&mut app, KEY_LEFT);
    release(&mut app);
    assert_eq!(app.graph_options.surface_palette, SurfacePalette::Custom);
    let original = app.graph_options.custom_rgb;
    let _ = press(&mut app, KEY_EXE);
    release(&mut app);
    assert_eq!(app.settings.page(), SettingsPage::CustomColor);
    let _ = press(&mut app, KEY_RIGHT);
    release(&mut app);
    assert_eq!(app.graph_options.custom_rgb, original);
    settings_move_down(&mut app, 3);
    app.dirty.content = false;
    app.dirty.graph = false;
    app.dirty.surface = false;
    let _ = press(&mut app, KEY_EXE);
    assert_eq!(app.graph_options.custom_rgb.red, original.red + 8);
    assert!(app.dirty.content);
    assert!(app.dirty.graph);
    assert!(!app.dirty.surface);
}

#[test]
fn custom_color_ok_focuses_tabs_without_committing_draft() {
    let mut app = AppState::new();
    enter_settings(&mut app);
    let _ = press(&mut app, KEY_EXE);
    release(&mut app);
    let _ = press(&mut app, KEY_DOWN);
    release(&mut app);
    let _ = press(&mut app, KEY_LEFT);
    release(&mut app);
    let original = app.graph_options.custom_rgb;
    let _ = press(&mut app, KEY_EXE);
    release(&mut app);
    let _ = press(&mut app, KEY_RIGHT);
    release(&mut app);
    assert_eq!(press(&mut app, KEY_OK).result, UpdateResult::StateChanged);
    assert_eq!(app.focus, Focus::Tabs);
    assert_eq!(app.settings.page(), SettingsPage::CustomColor);
    assert_eq!(app.graph_options.custom_rgb, original);
}

#[test]
fn settings_camera_reset_invalidates_projection_only() {
    let mut app = AppState::new();
    enter_settings(&mut app);
    settings_move_down(&mut app, 6);
    app.dirty.graph = false;
    app.dirty.surface = false;
    let outcome = press(&mut app, KEY_EXE);
    assert_eq!(outcome.request, Request::ResetCamera);
    assert!(app.dirty.graph);
    assert!(!app.dirty.surface);
}

#[test]
fn accepted_settings_domain_is_transactional_and_resamples() {
    let mut app = AppState::new();
    enter_settings(&mut app);
    settings_move_down(&mut app, 5);
    let _ = press(&mut app, KEY_EXE);
    release(&mut app);
    assert_eq!(app.settings.page(), SettingsPage::Domain);
    let _ = press(&mut app, KEY_EXE);
    release(&mut app);
    assert!(app.settings.is_editing());
    let _ = app.handle_settings_event(EVENT_CLEAR);
    let _ = app.handle_settings_event(EVENT_MINUS);
    let _ = app.handle_settings_event(EVENT_TWO);
    app.dirty.graph = false;
    app.dirty.surface = false;
    let outcome = app.handle_settings_event(EVENT_EXE);
    assert_eq!(outcome.request, Request::SubmitDomain);
    assert!(!app.dirty.surface);
    app.finish_domain_edit(None);
    assert!(app.dirty.surface);
    assert!(app.dirty.graph);
    assert!(!app.settings.is_editing());
}

#[test]
fn settings_back_unwinds_edit_page_then_returns_to_graph() {
    let mut app = AppState::new();
    enter_settings(&mut app);
    settings_move_down(&mut app, 5);
    let _ = press(&mut app, KEY_EXE);
    release(&mut app);
    let _ = press(&mut app, KEY_EXE);
    release(&mut app);
    assert!(app.settings.is_editing());

    assert_eq!(press(&mut app, KEY_BACK).result, UpdateResult::Continue);
    assert!(!app.settings.is_editing());
    release(&mut app);
    assert_eq!(press(&mut app, KEY_BACK).result, UpdateResult::Continue);
    assert_eq!(app.settings.page(), SettingsPage::Main);
    release(&mut app);
    assert_eq!(press(&mut app, KEY_BACK).result, UpdateResult::StateChanged);
    assert_eq!(app.active_tab, Tab::Graph);
    assert_eq!(app.focus, Focus::Content);
}

#[test]
fn settings_tab_back_redraws_the_restored_content_focus() {
    let mut app = AppState::new();
    enter_settings(&mut app);
    assert_eq!(press(&mut app, KEY_OK).result, UpdateResult::StateChanged);
    assert_eq!(app.focus, Focus::Tabs);
    release(&mut app);

    app.dirty.content = false;
    assert_eq!(press(&mut app, KEY_BACK).result, UpdateResult::StateChanged);
    assert_eq!(app.focus, Focus::Content);
    assert!(app.dirty.content);
}

#[test]
fn semantic_events_reach_only_the_field_that_owns_input() {
    let mut app = AppState::new();
    assert!(!app.text_input_active());
    let before = app.editor.source().len();
    assert_eq!(app.handle_semantic_event(EVENT_ONE).result, UpdateResult::Continue);
    assert_eq!(app.editor.source().len(), before);

    enter_equation(&mut app);
    assert!(app.text_input_active());
    let _ = app.handle_semantic_event(EVENT_ONE);
    assert_eq!(app.editor.source().len(), before + 1);
    assert_eq!(app.handle_semantic_event(EVENT_EXE).request, Request::CompileEquation);
}

#[test]
fn redraw_work_follows_the_dirty_flags_and_clears_them() {
    let mut app = AppState::new();
    let work = app.take_redraw();
    assert_eq!(work, Redraw { resample: true, content: Some(Tab::Graph), header: true });
    assert!(!app.dirty.header && !app.dirty.content && !app.dirty.surface && !app.dirty.graph);
    assert_eq!(app.take_redraw(), Redraw { resample: false, content: None, header: false });

    enter_settings(&mut app);
    let _ = app.take_redraw();
    settings_move_down(&mut app, 1);
    let _ = press(&mut app, KEY_EXE);
    assert!(app.dirty.graph);
    assert_eq!(app.take_redraw().content, Some(Tab::Settings));
    assert!(app.dirty.graph);
}
