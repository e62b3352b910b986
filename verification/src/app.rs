//! Application-level tab/focus state machine and dirty-state ownership.
//!
//! There are four interaction contexts: Graph content, Equation content,
//! Settings content, and the shared tab bar. Content OK moves focus to the
//! tab bar; tab Left/Right changes the selection; tab OK activates content;
//! tab Back cancels navigation. Equation Back returns to Graph without
//! compiling, while Graph Back exits.
//!
//! Work that needs the camera, the floating-point domain, or expression
//! evaluation is not done here: each operation returns an [`Outcome`] whose
//! [`Request`] tells the caller what to perform, and the caller reports the
//! result back (`camera_moved`, `finish_compile`, `finish_domain_edit`).
use vstd::prelude::*;
use crate::editor::{
    EditorAction, EditorKeyRepeat, EditorModel, EquationEditor, RepeatKey, held_repeat_key,
    repeat_event, saturating_sum, REPEAT_INITIAL_DELAY_MS, REPEAT_INTERVAL_MS,
};
use crate::expression::ParseError;
use crate::graph::GraphOptions;
use crate::keys::{
    key_down, spec_key_down, Event, KeyState, KEY_BACK, KEY_DOWN, KEY_EXE, KEY_LEFT, KEY_OK,
    KEY_RIGHT, KEY_UP,
};
use crate::settings::{
    resolution_change_only_from_resolution_row, AppearanceItem, NumericError, SettingsAction,
    SettingsModel, SettingsPage, SettingsState,
};

verus! {

/// Top-level application views.
#[derive(Clone, Copy, Debug, PartialEq, Eq, Structural)]
pub enum Tab {
    Graph,
    Equation,
    Settings,
}

impl Tab {
    pub open spec fn spec_index(self) -> int {
        match self {
            Tab::Graph => 0,
            Tab::Equation => 1,
            Tab::Settings => 2,
        }
    }

    /// Tab at a position of the cyclic order (taken modulo three).
    pub open spec fn at(index: int) -> Tab {
        let i = index % 3;
        if i == 0 {
            Tab::Graph
        } else if i == 1 {
            Tab::Equation
        } else {
            Tab::Settings
        }
    }

    /// Stable display index used by the three-segment header.
    pub fn index(self) -> (index: usize)
        ensures
            index == self.spec_index(),
    {
        match self {
            Tab::Graph => 0,
            Tab::Equation => 1,
            Tab::Settings => 2,
        }
    }

    /// The tab to the left, wrapping from Graph to Settings.
    pub fn previous(self) -> (tab: Tab)
        ensures
            tab == Tab::at(self.spec_index() + 2),
    {
        match self {
            Tab::Graph => Tab::Settings,
            Tab::Equation => Tab::Graph,
            Tab::Settings => Tab::Equation,
        }
    }

    /// The tab to the right, wrapping from Settings to Graph.
    pub fn next(self) -> (tab: Tab)
        ensures
            tab == Tab::at(self.spec_index() + 1),
    {
        match self {
            Tab::Graph => Tab::Equation,
            Tab::Equation => Tab::Settings,
            Tab::Settings => Tab::Graph,
        }
    }
}

/// Whether input belongs to the selected tab's content or to tab navigation.
#[derive(Clone, Copy, Debug, PartialEq, Eq, Structural)]
pub enum Focus {
    Content,
    Tabs,
}

/// Independent invalidation domains.
///
/// `content` means the current tab body needs drawing. `graph` records that
/// the graph viewport must be recomposed, even while another tab covers it.
/// `surface` means heights must be resampled. `header` is isolated so camera
/// motion never redraws static UI.
#[derive(Clone, Copy, Debug, PartialEq, Eq, Structural)]
pub struct DirtyFlags {
    pub header: bool,
    pub content: bool,
    pub graph: bool,
    pub surface: bool,
}

/// Outcome consumed by the cooperative main loop.
#[derive(Clone, Copy, Debug, PartialEq, Eq, Structural)]
pub enum UpdateResult {
    Continue,
    StateChanged,
    Exit,
}

/// Work the caller must perform after an operation.
#[derive(Clone, Copy, Debug, PartialEq, Eq, Structural)]
pub enum Request {
    /// Nothing further to do.
    Nothing,
    /// Apply the held raw keys to the graph camera; call `camera_moved` if it moved.
    ApplyCameraKeys,
    /// Compile the editor source; report with `finish_compile`.
    CompileEquation,
    /// Convert and validate the Settings domain draft; report with `finish_domain_edit`.
    SubmitDomain,
    /// Restore the default camera.
    ResetCamera,
}

/// Result of one operation together with the caller's follow-up work.
#[derive(Clone, Copy, Debug, PartialEq, Eq, Structural)]
pub struct Outcome {
    pub result: UpdateResult,
    pub request: Request,
}

/// Drawing due, in the order to do it: resample the surface, draw the
/// content of a tab, redraw the header.
#[derive(Clone, Copy, Debug, PartialEq, Eq, Structural)]
pub struct Redraw {
    pub resample: bool,
    pub content: Option<Tab>,
    pub header: bool,
}

/// Abstract application state.
pub struct AppModel {
    pub graph_options: GraphOptions,
    pub settings: SettingsModel,
    pub active_tab: Tab,
    pub selected_tab: Tab,
    pub focus: Focus,
    pub dirty: DirtyFlags,
    pub editor: EditorModel,
    pub auto_rotate: bool,
    pub last_graph_render_ms: u32,
    pub editor_repeat: (RepeatKey, u64),
    pub previous_keys: u64,
    pub pressed_keys: u64,
}

pub open spec fn plain(result: UpdateResult) -> Outcome {
    Outcome { result, request: Request::Nothing }
}

impl AppModel {
    pub open spec fn wf(self) -> bool {
        self.settings.wf() && self.editor.wf()
    }

    pub open spec fn with_dirty(self, dirty: DirtyFlags) -> AppModel {
        AppModel { dirty, ..self }
    }

    /// The drawing the dirty flags call for.
    pub open spec fn redraw_work(self) -> Redraw {
        Redraw {
            resample: self.dirty.surface,
            content: if self.dirty.content {
                Some(self.active_tab)
            } else {
                None
            },
            header: self.dirty.header,
        }
    }

    /// State once that drawing is done: every region is valid again, except
    /// that a graph viewport covered by another tab stays due for
    /// recomposition (a resample makes it due).
    pub open spec fn after_redraw(self) -> AppModel {
        self.with_dirty(
            DirtyFlags {
                header: false,
                content: false,
                surface: false,
                graph: (self.dirty.graph || self.dirty.surface) && !(self.dirty.content
                    && self.active_tab == Tab::Graph),
            },
        )
    }

    /// Graph content, selected and focused, with header, content and graph invalid.
    pub open spec fn show_graph(self) -> AppModel {
        AppModel {
            active_tab: Tab::Graph,
            selected_tab: Tab::Graph,
            focus: Focus::Content,
            dirty: DirtyFlags { header: true, content: true, graph: true, ..self.dirty },
            ..self
        }
    }

    /// Dirty flags and follow-up work for one Settings action.
    pub open spec fn apply_settings(self, action: SettingsAction) -> (AppModel, Outcome) {
        let d = self.dirty;
        match action {
            SettingsAction::Unchanged => (self, plain(UpdateResult::Continue)),
            SettingsAction::Redraw => (
                self.with_dirty(DirtyFlags { content: true, ..d }),
                plain(UpdateResult::Continue),
            ),
            SettingsAction::GraphChanged => (
                self.with_dirty(DirtyFlags { content: true, graph: true, ..d }),
                plain(UpdateResult::Continue),
            ),
            SettingsAction::ResolutionChanged => (
                self.with_dirty(DirtyFlags { content: true, graph: true, surface: true, ..d }),
                plain(UpdateResult::Continue),
            ),
            SettingsAction::AutoRotateChanged => (
                AppModel {
                    auto_rotate: !self.auto_rotate,
                    dirty: DirtyFlags { content: true, ..d },
                    ..self
                },
                plain(UpdateResult::Continue),
            ),
            SettingsAction::DomainDraftReady => (
                self,
                Outcome { result: UpdateResult::Continue, request: Request::SubmitDomain },
            ),
            SettingsAction::ResetCamera => (
                self.with_dirty(DirtyFlags { content: true, graph: true, ..d }),
                Outcome { result: UpdateResult::Continue, request: Request::ResetCamera },
            ),
            SettingsAction::LeaveSettings => (self.show_graph(), plain(UpdateResult::StateChanged)),
        }
    }

    /// Back pressed as a raw down edge.
    pub open spec fn back(self) -> (AppModel, Outcome) {
        let d = self.dirty;
        if self.focus == Focus::Tabs {
            (
                AppModel {
                    selected_tab: self.active_tab,
                    focus: Focus::Content,
                    dirty: DirtyFlags {
                        header: true,
                        content: d.content || self.active_tab == Tab::Equation || self.active_tab
                            == Tab::Settings,
                        ..d
                    },
                    ..self
                },
                plain(UpdateResult::StateChanged),
            )
        } else if self.active_tab == Tab::Settings {
            let (settings, action) = self.settings.back();
            AppModel { settings, ..self }.apply_settings(action)
        } else if self.active_tab == Tab::Equation && self.editor.picker_open {
            (
                AppModel {
                    editor: EditorModel { picker_open: false, ..self.editor },
                    dirty: DirtyFlags { content: true, ..d },
                    ..self
                },
                plain(UpdateResult::StateChanged),
            )
        } else if self.active_tab != Tab::Graph {
            (
                AppModel {
                    active_tab: Tab::Graph,
                    selected_tab: Tab::Graph,
                    dirty: DirtyFlags { header: true, content: true, ..d },
                    ..self
                },
                plain(UpdateResult::StateChanged),
            )
        } else {
            (self, plain(UpdateResult::Exit))
        }
    }

    /// Raw edges while the tab bar has focus: Left/Right move the selection,
    /// OK activates the selection and returns focus to content.
    pub open spec fn tabs_step(self, pressed: u64) -> (AppModel, Outcome) {
        let s1 = if spec_key_down(pressed, KEY_LEFT) {
            AppModel {
                selected_tab: Tab::at(self.selected_tab.spec_index() + 2),
                dirty: DirtyFlags { header: true, ..self.dirty },
                ..self
            }
        } else {
            self
        };
        let s2 = if spec_key_down(pressed, KEY_RIGHT) {
            AppModel {
                selected_tab: Tab::at(s1.selected_tab.spec_index() + 1),
                dirty: DirtyFlags { header: true, ..s1.dirty },
                ..s1
            }
        } else {
            s1
        };
        if spec_key_down(pressed, KEY_OK) {
            (
                AppModel {
                    active_tab: s2.selected_tab,
                    focus: Focus::Content,
                    dirty: DirtyFlags { header: true, content: true, ..s2.dirty },
                    ..s2
                },
                plain(UpdateResult::StateChanged),
            )
        } else {
            (s2, plain(UpdateResult::Continue))
        }
    }

    /// OK in content: cancel an active numeric draft or close the picker,
    /// then give focus to the tab bar.
    pub open spec fn focus_tabs_from_content(self) -> (AppModel, Outcome) {
        let settings = if self.active_tab == Tab::Settings && self.settings.editing {
            self.settings.back().0
        } else {
            self.settings
        };
        let editor = if self.active_tab == Tab::Equation {
            EditorModel { picker_open: false, ..self.editor }
        } else {
            self.editor
        };
        (
            AppModel {
                settings,
                editor,
                selected_tab: self.active_tab,
                focus: Focus::Tabs,
                dirty: DirtyFlags {
                    header: true,
                    content: self.dirty.content || self.active_tab == Tab::Equation
                        || self.active_tab == Tab::Settings,
                    ..self.dirty
                },
                ..self
            },
            plain(UpdateResult::StateChanged),
        )
    }

    /// Raw edges on the Settings menu pages (no field being edited).
    pub open spec fn settings_keys(self, pressed: u64, bound_text: Seq<u8>) -> (AppModel, Outcome) {
        if spec_key_down(pressed, KEY_UP) {
            let (settings, action) = self.settings.select_previous();
            AppModel { settings, ..self }.apply_settings(action)
        } else if spec_key_down(pressed, KEY_DOWN) {
            let (settings, action) = self.settings.select_next();
            AppModel { settings, ..self }.apply_settings(action)
        } else if spec_key_down(pressed, KEY_LEFT) {
            let (settings, options, action) = self.settings.adjust(self.graph_options, false);
            AppModel { settings, graph_options: options, ..self }.apply_settings(action)
        } else if spec_key_down(pressed, KEY_RIGHT) {
            let (settings, options, action) = self.settings.adjust(self.graph_options, true);
            AppModel { settings, graph_options: options, ..self }.apply_settings(action)
        } else if spec_key_down(pressed, KEY_EXE) {
            let (settings, options, action) = self.settings.activate(
                self.graph_options,
                bound_text,
            );
            AppModel { settings, graph_options: options, ..self }.apply_settings(action)
        } else {
            (self, plain(UpdateResult::Continue))
        }
    }

    /// One raw keyboard sample.
    ///
    /// Down edges are the newly held keys. Back has priority; then the tab
    /// bar, then content OK; otherwise Graph content asks for camera motion
    /// and the Settings menu handles arrows and EXE. `bound_text` is the
    /// display text of the selected domain bound (used only to start editing it).
    pub open spec fn update(self, keys: u64, bound_text: Seq<u8>) -> (AppModel, Outcome) {
        let pressed = keys & !self.previous_keys;
        let s = AppModel { pressed_keys: pressed, previous_keys: keys, ..self };
        if spec_key_down(pressed, KEY_BACK) {
            s.back()
        } else if s.focus == Focus::Tabs {
            s.tabs_step(pressed)
        } else if spec_key_down(pressed, KEY_OK) {
            s.focus_tabs_from_content()
        } else if s.active_tab == Tab::Graph {
            (s, Outcome { result: UpdateResult::Continue, request: Request::ApplyCameraKeys })
        } else if s.active_tab == Tab::Settings && !s.settings.editing {
            s.settings_keys(pressed, bound_text)
        } else {
            (s, plain(UpdateResult::Continue))
        }
    }

    /// One semantic event for the Equation editor.
    pub open spec fn editor_event(self, value: u16) -> (AppModel, Outcome) {
        let (editor, action) = self.editor.step(value);
        let s = AppModel { editor, ..self };
        match action {
            EditorAction::Unchanged => (s, plain(UpdateResult::Continue)),
            EditorAction::Changed => (
                s.with_dirty(DirtyFlags { content: true, ..s.dirty }),
                plain(UpdateResult::Continue),
            ),
            EditorAction::Submit => (
                s,
                Outcome { result: UpdateResult::Continue, request: Request::CompileEquation },
            ),
            EditorAction::Cancel => (
                AppModel { editor: EditorModel { error: None, ..editor }, ..s }.show_graph(),
                plain(UpdateResult::StateChanged),
            ),
            EditorAction::FocusTabs => (
                AppModel {
                    selected_tab: s.active_tab,
                    focus: Focus::Tabs,
                    dirty: DirtyFlags { header: true, content: true, ..s.dirty },
                    ..s
                },
                plain(UpdateResult::StateChanged),
            ),
        }
    }

    /// The compiler's verdict on the submitted source: success replaces the
    /// active program, marks the surface for resampling and returns to
    /// Graph; failure keeps the editor open with the error shown.
    pub open spec fn finish_compile(self, error: Option<ParseError>) -> (AppModel, UpdateResult) {
        let s = AppModel { editor: EditorModel { error, ..self.editor }, ..self };
        match error {
            None => (
                AppModel { dirty: DirtyFlags { surface: true, ..s.dirty }, ..s }.show_graph(),
                UpdateResult::StateChanged,
            ),
            Some(_) => (s.with_dirty(DirtyFlags { content: true, ..s.dirty }), UpdateResult::Continue),
        }
    }

    /// The application's verdict on a submitted domain draft: acceptance
    /// invalidates content, graph, and surface; rejection only redraws.
    pub open spec fn finish_domain_edit(self, error: Option<NumericError>) -> AppModel {
        let s = AppModel { settings: self.settings.finish_domain_edit(error), ..self };
        match error {
            None => s.with_dirty(DirtyFlags { content: true, graph: true, surface: true, ..s.dirty }),
            Some(_) => s.with_dirty(DirtyFlags { content: true, ..s.dirty }),
        }
    }

    /// One semantic event for the active Settings numeric field.
    pub open spec fn settings_event(self, value: u16) -> (AppModel, Outcome) {
        let (settings, action) = self.settings.editor_event(value);
        AppModel { settings, ..self }.apply_settings(action)
    }

    /// Whether a text field owns semantic input: the equation editor while
    /// Equation content has focus, or a Settings numeric field being edited.
    pub open spec fn text_input_active(self) -> bool {
        ||| self.active_tab == Tab::Equation && self.focus == Focus::Content
        ||| self.active_tab == Tab::Settings && self.focus == Focus::Content && self.settings.editing
    }

    /// One semantic event, routed to whichever text field owns input; with
    /// none, nothing changes.
    pub open spec fn semantic_event(self, value: u16) -> (AppModel, Outcome) {
        if self.active_tab == Tab::Equation && self.focus == Focus::Content {
            self.editor_event(value)
        } else if self.active_tab == Tab::Settings && self.focus == Focus::Content
            && self.settings.editing {
            self.settings_event(value)
        } else {
            (self, plain(UpdateResult::Continue))
        }
    }

    /// Held-key repetition routed to whichever text field owns input.
    pub open spec fn key_repeat(self, keys: u64, now_ms: u64) -> (AppModel, Outcome) {
        let equation_active = self.active_tab == Tab::Equation && self.focus == Focus::Content;
        let settings_active = self.active_tab == Tab::Settings && self.focus == Focus::Content
            && self.settings.editing;
        if !equation_active && !settings_active {
            (
                AppModel { editor_repeat: (RepeatKey::Released, 0u64), ..self },
                plain(UpdateResult::Continue),
            )
        } else {
            let held = held_repeat_key(keys);
            let (key, next) = self.editor_repeat;
            let (repeat, event) = if held == RepeatKey::Released {
                ((RepeatKey::Released, 0u64), None)
            } else if held != key {
                ((held, saturating_sum(now_ms, REPEAT_INITIAL_DELAY_MS)), None)
            } else if now_ms < next {
                (self.editor_repeat, None)
            } else {
                ((held, saturating_sum(now_ms, REPEAT_INTERVAL_MS)), repeat_event(held))
            };
            let s = AppModel { editor_repeat: repeat, ..self };
            match event {
                Some(value) => if equation_active {
                    s.editor_event(value)
                } else {
                    s.settings_event(value)
                },
                None => (s, plain(UpdateResult::Continue)),
            }
        }
    }
}


/// Graph Back exits: with Graph content focused, a newly pressed Back
/// ends the application and changes nothing else.
pub proof fn graph_back_exits(app: AppModel, keys: u64, bound_text: Seq<u8>)
    requires
        app.focus == Focus::Content,
        app.active_tab == Tab::Graph,
        spec_key_down(keys & !app.previous_keys, KEY_BACK),
    ensures
        app.update(keys, bound_text).1 == plain(UpdateResult::Exit),
        app.update(keys, bound_text).0 == (AppModel {
            pressed_keys: keys & !app.previous_keys,
            previous_keys: keys,
            ..app
        }),
{
}

/// Equation Back returns to Graph without compiling: the source is kept,
/// no compile is requested, and the surface is not marked for resampling.
pub proof fn equation_back_returns_without_compiling(app: AppModel, keys: u64, bound_text: Seq<u8>)
    requires
        app.focus == Focus::Content,
        app.active_tab == Tab::Equation,
        !app.editor.picker_open,
        spec_key_down(keys & !app.previous_keys, KEY_BACK),
    ensures
        app.update(keys, bound_text).0.active_tab == Tab::Graph,
        app.update(keys, bound_text).0.focus == Focus::Content,
        app.update(keys, bound_text).0.editor == app.editor,
        app.update(keys, bound_text).0.dirty.surface == app.dirty.surface,
        app.update(keys, bound_text).1 == plain(UpdateResult::StateChanged),
{
}

/// Tab-bar Back cancels navigation: content regains focus, the selection
/// snaps back to the active tab, the active tab is unchanged, the header is
/// redrawn, and Equation or Settings content is redrawn with its restored
/// focus.
pub proof fn tab_back_cancels_navigation(app: AppModel, keys: u64, bound_text: Seq<u8>)
    requires
        app.focus == Focus::Tabs,
        spec_key_down(keys & !app.previous_keys, KEY_BACK),
    ensures
        app.update(keys, bound_text).0.focus == Focus::Content,
        app.update(keys, bound_text).0.active_tab == app.active_tab,
        app.update(keys, bound_text).0.selected_tab == app.active_tab,
        app.update(keys, bound_text).0.dirty.header,
        app.active_tab != Tab::Graph ==> app.update(keys, bound_text).0.dirty.content,
        app.update(keys, bound_text).1 == plain(UpdateResult::StateChanged),
{
}

/// Content OK hands focus to the tab bar with the active tab highlighted;
/// the active tab and the graph options stay as they were.
pub proof fn content_ok_focuses_tabs(app: AppModel, keys: u64, bound_text: Seq<u8>)
    requires
        app.focus == Focus::Content,
        !spec_key_down(keys & !app.previous_keys, KEY_BACK),
        spec_key_down(keys & !app.previous_keys, KEY_OK),
    ensures
        app.update(keys, bound_text).0.focus == Focus::Tabs,
        app.update(keys, bound_text).0.active_tab == app.active_tab,
        app.update(keys, bound_text).0.selected_tab == app.active_tab,
        app.update(keys, bound_text).0.graph_options == app.graph_options,
        app.update(keys, bound_text).0.dirty.header,
        app.update(keys, bound_text).1 == plain(UpdateResult::StateChanged),
{
}

/// In the tab bar, Left and Right (without OK or Back) move only the
/// highlight, one tab around the ring, and never change the active tab.
pub proof fn tab_arrows_move_only_the_highlight(app: AppModel, keys: u64, bound_text: Seq<u8>)
    requires
        app.focus == Focus::Tabs,
        !spec_key_down(keys & !app.previous_keys, KEY_BACK),
        !spec_key_down(keys & !app.previous_keys, KEY_OK),
    ensures
        app.update(keys, bound_text).0.focus == Focus::Tabs,
        app.update(keys, bound_text).0.active_tab == app.active_tab,
        app.update(keys, bound_text).0.graph_options == app.graph_options,
        app.update(keys, bound_text).0.settings == app.settings,
        app.update(keys, bound_text).0.editor == app.editor,
        spec_key_down(keys & !app.previous_keys, KEY_RIGHT) && !spec_key_down(
            keys & !app.previous_keys,
            KEY_LEFT,
        ) ==> app.update(keys, bound_text).0.selected_tab == Tab::at(app.selected_tab.spec_index() + 1),
        spec_key_down(keys & !app.previous_keys, KEY_LEFT) && !spec_key_down(
            keys & !app.previous_keys,
            KEY_RIGHT,
        ) ==> app.update(keys, bound_text).0.selected_tab == Tab::at(app.selected_tab.spec_index() + 2),
        app.update(keys, bound_text).1 == plain(UpdateResult::Continue),
{
}

/// Tab-bar OK activates the highlighted tab and gives its content focus.
pub proof fn tab_ok_activates_selection(app: AppModel, keys: u64, bound_text: Seq<u8>)
    requires
        app.focus == Focus::Tabs,
        !spec_key_down(keys & !app.previous_keys, KEY_BACK),
        spec_key_down(keys & !app.previous_keys, KEY_OK),
    ensures
        app.update(keys, bound_text).0.focus == Focus::Content,
        app.update(keys, bound_text).0.active_tab == app.update(keys, bound_text).0.selected_tab,
        app.update(keys, bound_text).1 == plain(UpdateResult::StateChanged),
{
}

/// A raw key sample marks the surface for resampling only through the
/// Resolution row of the Appearance page; camera motion, tab changes, and
/// every other setting reuse the cached heights.
pub proof fn raw_keys_resample_only_for_resolution(app: AppModel, keys: u64, bound_text: Seq<u8>)
    requires
        app.wf(),
        !app.dirty.surface,
        app.update(keys, bound_text).0.dirty.surface,
    ensures
        app.active_tab == Tab::Settings,
        app.settings.page == SettingsPage::Appearance,
        app.settings.appearance_item() == AppearanceItem::Resolution,
{
    let pressed = keys & !app.previous_keys;
    let s = AppModel { pressed_keys: pressed, previous_keys: keys, ..app };
    resolution_change_only_from_resolution_row(
        s.settings,
        s.graph_options,
        spec_key_down(pressed, KEY_RIGHT),
        bound_text,
        0,
    );
    resolution_change_only_from_resolution_row(s.settings, s.graph_options, false, bound_text, 0);
    if spec_key_down(pressed, KEY_BACK) {
        if s.focus != Focus::Tabs && s.active_tab == Tab::Settings {
            lemma_apply_settings_surface(AppModel { settings: s.settings.back().0, ..s }, s.settings.back().1);
        }
    } else if s.focus == Focus::Tabs {
    } else if spec_key_down(pressed, KEY_OK) {
    } else if s.active_tab == Tab::Graph {
    } else if s.active_tab == Tab::Settings && !s.settings.editing {
        lemma_settings_keys_surface(s, pressed, bound_text);
    }
}

proof fn lemma_apply_settings_surface(app: AppModel, action: SettingsAction)
    ensures
        app.apply_settings(action).0.dirty.surface == (app.dirty.surface || action
            == SettingsAction::ResolutionChanged),
{
}

proof fn lemma_settings_keys_surface(app: AppModel, pressed: u64, bound_text: Seq<u8>)
    requires
        !app.dirty.surface,
        app.settings_keys(pressed, bound_text).0.dirty.surface,
    ensures
        app.settings.page == SettingsPage::Appearance,
        app.settings.appearance_item() == AppearanceItem::Resolution,
{
    let st = app.settings;
    let o = app.graph_options;
    resolution_change_only_from_resolution_row(st, o, true, bound_text, 0);
    resolution_change_only_from_resolution_row(st, o, false, bound_text, 0);
    if spec_key_down(pressed, KEY_UP) {
        lemma_apply_settings_surface(AppModel { settings: st.select_previous().0, ..app }, st.select_previous().1);
    } else if spec_key_down(pressed, KEY_DOWN) {
        lemma_apply_settings_surface(AppModel { settings: st.select_next().0, ..app }, st.select_next().1);
    } else if spec_key_down(pressed, KEY_LEFT) {
        let (a, b, c) = st.adjust(o, false);
        lemma_apply_settings_surface(AppModel { settings: a, graph_options: b, ..app }, c);
    } else if spec_key_down(pressed, KEY_RIGHT) {
        let (a, b, c) = st.adjust(o, true);
        lemma_apply_settings_surface(AppModel { settings: a, graph_options: b, ..app }, c);
    } else if spec_key_down(pressed, KEY_EXE) {
        let (a, b, c) = st.activate(o, bound_text);
        lemma_apply_settings_surface(AppModel { settings: a, graph_options: b, ..app }, c);
    }
}

/// A rejected compile changes nothing but the displayed error: the tab,
/// the focus, the source text, and the sampled surface are all kept.
pub proof fn failed_compile_keeps_state(app: AppModel, error: ParseError)
    ensures
        app.finish_compile(Some(error)).0.active_tab == app.active_tab,
        app.finish_compile(Some(error)).0.focus == app.focus,
        app.finish_compile(Some(error)).0.editor.text == app.editor.text,
        app.finish_compile(Some(error)).0.editor.error == Some(error),
        app.finish_compile(Some(error)).0.dirty.surface == app.dirty.surface,
        app.finish_compile(Some(error)).1 == UpdateResult::Continue,
{
}

/// Leaving a Settings numeric field for the tab bar discards its draft, just
/// like Back, while keeping the page.
pub proof fn content_ok_discards_numeric_draft(app: AppModel, keys: u64, bound_text: Seq<u8>)
    requires
        app.focus == Focus::Content,
        app.active_tab == Tab::Settings,
        app.settings.editing,
        !spec_key_down(keys & !app.previous_keys, KEY_BACK),
        spec_key_down(keys & !app.previous_keys, KEY_OK),
    ensures
        app.update(keys, bound_text).0.focus == Focus::Tabs,
        !app.update(keys, bound_text).0.settings.editing,
        app.update(keys, bound_text).0.settings.page == app.settings.page,
        app.update(keys, bound_text).0.graph_options == app.graph_options,
{
}

/// Complete application/UI state apart from the camera, the numeric domain
/// and the compiled program, which the caller owns.
pub struct AppState {
    pub graph_options: GraphOptions,
    pub settings: SettingsState,
    pub active_tab: Tab,
    pub selected_tab: Tab,
    pub focus: Focus,
    pub dirty: DirtyFlags,
    pub editor: EquationEditor,
    pub auto_rotate: bool,
    pub last_graph_render_ms: u32,
    pub editor_repeat: EditorKeyRepeat,
    pub previous_keys: KeyState,
    pub pressed_keys: KeyState,
}

impl View for AppState {
    type V = AppModel;

    open spec fn view(&self) -> AppModel {
        AppModel {
            graph_options: self.graph_options,
            settings: self.settings@,
            active_tab: self.active_tab,
            selected_tab: self.selected_tab,
            focus: self.focus,
            dirty: self.dirty,
            editor: self.editor@,
            auto_rotate: self.auto_rotate,
            last_graph_render_ms: self.last_graph_render_ms,
            editor_repeat: self.editor_repeat@,
            previous_keys: self.previous_keys,
            pressed_keys: self.pressed_keys,
        }
    }
}

fn continue_with(request: Request) -> (outcome: Outcome)
    ensures
        outcome == (Outcome { result: UpdateResult::Continue, request }),
{
    Outcome { result: UpdateResult::Continue, request }
}

fn just(result: UpdateResult) -> (outcome: Outcome)
    ensures
        outcome == plain(result),
{
    Outcome { result, request: Request::Nothing }
}

impl AppState {
    /// Starts in Graph content with default options and editor text, with
    /// every region invalid.
    pub fn new() -> (app: AppState)
        ensures
            app@.wf(),
            app@.graph_options == GraphOptions::spec_default(),
            app@.settings == SettingsModel::initial(),
            app@.active_tab == Tab::Graph,
            app@.selected_tab == Tab::Graph,
            app@.focus == Focus::Content,
            app@.dirty == (DirtyFlags { header: true, content: true, graph: true, surface: true }),
            app@.editor.text == crate::editor::initial_expression(),
            app@.editor.error is None,
            !app@.editor.picker_open,
            !app@.auto_rotate,
            app@.last_graph_render_ms == 0,
            app@.editor_repeat == (RepeatKey::Released, 0u64),
            app@.previous_keys == 0,
            app@.pressed_keys == 0,
    {
        AppState {
            graph_options: GraphOptions::default(),
            settings: SettingsState::new(),
            active_tab: Tab::Graph,
            selected_tab: Tab::Graph,
            focus: Focus::Content,
            dirty: DirtyFlags { header: true, content: true, graph: true, surface: true },
            editor: EquationEditor::new(),
            auto_rotate: false,
            last_graph_render_ms: 0,
            editor_repeat: EditorKeyRepeat::new(),
            previous_keys: 0,
            pressed_keys: 0,
        }
    }

    /// Raw down edges discovered during the most recent `update` call.
    pub fn pressed_keys(&self) -> (keys: KeyState)
        ensures
            keys == self.pressed_keys,
    {
        self.pressed_keys
    }

    /// Duration of the latest complete graph redraw.
    pub fn graph_render_profile_ms(&self) -> (ms: u32)
        ensures
            ms == self.last_graph_render_ms,
    {
        self.last_graph_render_ms
    }

    /// Records one complete graph render, saturating at `u32::MAX`.
    pub fn record_graph_render_ms(&mut self, elapsed_ms: u64)
        ensures
            final(self)@ == (AppModel {
                last_graph_render_ms: if elapsed_ms > u32::MAX {
                    u32::MAX
                } else {
                    elapsed_ms as u32
                },
                ..old(self)@
            }),
    {
        self.last_graph_render_ms = if elapsed_ms > u32::MAX as u64 {
            u32::MAX
        } else {
            elapsed_ms as u32
        };
    }

    /// Whether automatic rotation should advance the camera now: it is
    /// enabled and Graph content has focus.
    pub fn auto_rotate_active(&self) -> (active: bool)
        ensures
            active == (self.auto_rotate && self.active_tab == Tab::Graph && self.focus
                == Focus::Content),
    {
        self.auto_rotate && self.active_tab == Tab::Graph && self.focus == Focus::Content
    }

    /// Records that the camera moved: the graph must be recomposed, but the
    /// sampled surface stays valid.
    pub fn camera_moved(&mut self)
        ensures
            final(self)@ == old(self)@.with_dirty(
                DirtyFlags { content: true, graph: true, ..old(self)@.dirty },
            ),
    {
        self.dirty.content = true;
        self.dirty.graph = true;
    }

    /// Returns to Graph content and invalidates its viewport and header.
    pub fn show_graph(&mut self)
        ensures
            final(self)@ == old(self)@.show_graph(),
    {
        self.active_tab = Tab::Graph;
        self.selected_tab = Tab::Graph;
        self.focus = Focus::Content;
        self.dirty.header = true;
        self.dirty.content = true;
        self.dirty.graph = true;
    }

    fn apply_settings_action(&mut self, action: SettingsAction) -> (outcome: Outcome)
        ensures
            (final(self)@, outcome) == old(self)@.apply_settings(action),
    {
        match action {
            SettingsAction::Unchanged => just(UpdateResult::Continue),
            SettingsAction::Redraw => {
                self.dirty.content = true;
                just(UpdateResult::Continue)
            },
            SettingsAction::GraphChanged => {
                self.dirty.content = true;
                self.dirty.graph = true;
                just(UpdateResult::Continue)
            },
            SettingsAction::ResolutionChanged => {
                self.dirty.content = true;
                self.dirty.graph = true;
                self.dirty.surface = true;
                just(UpdateResult::Continue)
            },
            SettingsAction::AutoRotateChanged => {
                self.auto_rotate = !self.auto_rotate;
                self.dirty.content = true;
                just(UpdateResult::Continue)
            },
            SettingsAction::DomainDraftReady => continue_with(Request::SubmitDomain),
            SettingsAction::ResetCamera => {
                self.dirty.content = true;
                self.dirty.graph = true;
                continue_with(Request::ResetCamera)
            },
            SettingsAction::LeaveSettings => {
                self.show_graph();
                just(UpdateResult::StateChanged)
            },
        }
    }

    fn handle_back(&mut self) -> (outcome: Outcome)
        requires
            old(self)@.wf(),
        ensures
            (final(self)@, outcome) == old(self)@.back(),
            final(self)@.wf(),
    {
        if self.focus == Focus::Tabs {
            self.selected_tab = self.active_tab;
            self.focus = Focus::Content;
            self.dirty.header = true;
            if self.active_tab == Tab::Equation || self.active_tab == Tab::Settings {
                self.dirty.content = true;
            }
            return just(UpdateResult::StateChanged);
        }
        if self.active_tab == Tab::Settings {
            let action = self.settings.back();
            return self.apply_settings_action(action);
        }
        if self.active_tab == Tab::Equation && self.editor.close_function_picker() {
            self.dirty.content = true;
            return just(UpdateResult::StateChanged);
        }
        if self.active_tab != Tab::Graph {
            self.active_tab = Tab::Graph;
            self.selected_tab = Tab::Graph;
            self.dirty.header = true;
            self.dirty.content = true;
            return just(UpdateResult::StateChanged);
        }
        just(UpdateResult::Exit)
    }

    /// Advances focus, tab, and Settings state from one raw keyboard sample.
    ///
    /// `bound_text` is the display text of the currently selected domain
    /// bound; it is used only when EXE starts editing that bound.
    #[verifier::spinoff_prover]
    #[verifier::rlimit(40)]
    pub fn update(&mut self, keys: KeyState, bound_text: &[u8]) -> (outcome: Outcome)
        requires
            old(self)@.wf(),
        ensures
            (final(self)@, outcome) == old(self)@.update(keys, bound_text@),
            final(self)@.wf(),
    {
        let pressed = keys & !self.previous_keys;
        self.pressed_keys = pressed;
        self.previous_keys = keys;

        if key_down(pressed, KEY_BACK) {
            return self.handle_back();
        }

        if self.focus == Focus::Tabs {
            if key_down(pressed, KEY_LEFT) {
                self.selected_tab = self.selected_tab.previous();
                self.dirty.header = true;
            }
            if key_down(pressed, KEY_RIGHT) {
                self.selected_tab = self.selected_tab.next();
                self.dirty.header = true;
            }
            if key_down(pressed, KEY_OK) {
                if self.active_tab != self.selected_tab {
                    self.active_tab = self.selected_tab;
                    self.dirty.content = true;
                }
                self.focus = Focus::Content;
                self.dirty.header = true;
                self.dirty.content = true;
                return just(UpdateResult::StateChanged);
            }
            return just(UpdateResult::Continue);
        }

        if key_down(pressed, KEY_OK) {
            if self.active_tab == Tab::Settings && self.settings.is_editing() {
                let _ = self.settings.back();
            }
            if self.active_tab == Tab::Equation {
                let _ = self.editor.close_function_picker();
            }
            self.selected_tab = self.active_tab;
            self.focus = Focus::Tabs;
            self.dirty.header = true;
            if self.active_tab == Tab::Equation || self.active_tab == Tab::Settings {
                self.dirty.content = true;
            }
            return just(UpdateResult::StateChanged);
        }

        if self.active_tab == Tab::Graph {
            return continue_with(Request::ApplyCameraKeys);
        }
        if self.active_tab == Tab::Settings && !self.settings.is_editing() {
            let action = if key_down(pressed, KEY_UP) {
                self.settings.select_previous()
            } else if key_down(pressed, KEY_DOWN) {
                self.settings.select_next()
            } else if key_down(pressed, KEY_LEFT) {
                self.settings.adjust_left(&mut self.graph_options)
            } else if key_down(pressed, KEY_RIGHT) {
                self.settings.adjust_right(&mut self.graph_options)
            } else if key_down(pressed, KEY_EXE) {
                self.settings.activate(&mut self.graph_options, bound_text)
            } else {
                SettingsAction::Unchanged
            };
            return self.apply_settings_action(action);
        }
        just(UpdateResult::Continue)
    }

    /// Applies one semantic calculator event to Equation content.
    ///
    /// EXE asks the caller to compile (see `finish_compile`); Back returns to
    /// Graph without compiling and drops a stale error.
    pub fn handle_editor_event(&mut self, event: Event) -> (outcome: Outcome)
        requires
            old(self)@.wf(),
        ensures
            (final(self)@, outcome) == old(self)@.editor_event(event),
            final(self)@.wf(),
    {
        match self.editor.handle_event(event) {
            EditorAction::Unchanged => just(UpdateResult::Continue),
            EditorAction::Changed => {
                self.dirty.content = true;
                just(UpdateResult::Continue)
            },
            EditorAction::Submit => continue_with(Request::CompileEquation),
            EditorAction::Cancel => {
                self.editor.dismiss_error();
                self.show_graph();
                just(UpdateResult::StateChanged)
            },
            EditorAction::FocusTabs => {
                self.selected_tab = self.active_tab;
                self.focus = Focus::Tabs;
                self.dirty.header = true;
                self.dirty.content = true;
                just(UpdateResult::StateChanged)
            },
        }
    }

    /// Records the compiler's verdict on the submitted Equation source.
    pub fn finish_compile(&mut self, error: Option<ParseError>) -> (result: UpdateResult)
        requires
            old(self)@.wf(),
        ensures
            (final(self)@, result) == old(self)@.finish_compile(error),
            final(self)@.wf(),
    {
        self.editor.set_compile_result(error);
        match error {
            None => {
                self.dirty.surface = true;
                self.show_graph();
                UpdateResult::StateChanged
            },
            Some(_) => {
                self.dirty.content = true;
                UpdateResult::Continue
            },
        }
    }

    /// Records the caller's verdict on a submitted Settings domain draft.
    pub fn finish_domain_edit(&mut self, error: Option<NumericError>)
        requires
            old(self)@.wf(),
        ensures
            final(self)@ == old(self)@.finish_domain_edit(error),
            final(self)@.wf(),
    {
        self.settings.finish_domain_edit(error);
        match error {
            None => {
                self.dirty.content = true;
                self.dirty.graph = true;
                self.dirty.surface = true;
            },
            Some(_) => {
                self.dirty.content = true;
            },
        }
    }

    /// Applies one semantic numeric event to the active Settings field.
    pub fn handle_settings_event(&mut self, event: Event) -> (outcome: Outcome)
        requires
            old(self)@.wf(),
        ensures
            (final(self)@, outcome) == old(self)@.settings_event(event),
            final(self)@.wf(),
    {
        let action = self.settings.handle_editor_event(event);
        self.apply_settings_action(action)
    }

    /// Reports the drawing the dirty flags call for and marks it done.
    pub fn take_redraw(&mut self) -> (work: Redraw)
        requires
            old(self)@.wf(),
        ensures
            work == old(self)@.redraw_work(),
            final(self)@ == old(self)@.after_redraw(),
            final(self)@.wf(),
    {
        let work = Redraw {
            resample: self.dirty.surface,
            content: if self.dirty.content {
                Some(self.active_tab)
            } else {
                None
            },
            header: self.dirty.header,
        };
        self.dirty.graph = (self.dirty.graph || self.dirty.surface) && !(self.dirty.content
            && self.active_tab == Tab::Graph);
        self.dirty.header = false;
        self.dirty.content = false;
        self.dirty.surface = false;
        work
    }

    /// Whether a text field currently owns semantic input (see
    /// [`AppModel::text_input_active`]).
    pub fn text_input_active(&self) -> (active: bool)
        ensures
            active == self@.text_input_active(),
    {
        (self.active_tab == Tab::Equation && self.focus == Focus::Content) || (self.active_tab
            == Tab::Settings && self.focus == Focus::Content && self.settings.is_editing())
    }

    /// Applies one semantic calculator event to whichever text field owns
    /// input; with none, nothing changes.
    pub fn handle_semantic_event(&mut self, event: Event) -> (outcome: Outcome)
        requires
            old(self)@.wf(),
        ensures
            (final(self)@, outcome) == old(self)@.semantic_event(event),
            final(self)@.wf(),
    {
        if self.active_tab == Tab::Equation && self.focus == Focus::Content {
            self.handle_editor_event(event)
        } else if self.active_tab == Tab::Settings && self.focus == Focus::Content
            && self.settings.is_editing() {
            self.handle_settings_event(event)
        } else {
            just(UpdateResult::Continue)
        }
    }

    /// Generates Backspace/Left/Right repeat events from raw held keys for
    /// whichever text field currently owns semantic input.
    pub fn update_key_repeat(&mut self, keys: KeyState, now_ms: u64) -> (outcome: Outcome)
        requires
            old(self)@.wf(),
        ensures
            (final(self)@, outcome) == old(self)@.key_repeat(keys, now_ms),
            final(self)@.wf(),
    {
        let equation_active = self.active_tab == Tab::Equation && self.focus == Focus::Content;
        let settings_active = self.active_tab == Tab::Settings && self.focus == Focus::Content
            && self.settings.is_editing();
        if !equation_active && !settings_active {
            self.editor_repeat.reset();
            return just(UpdateResult::Continue);
        }
        match self.editor_repeat.update(keys, now_ms) {
            Some(event) => {
                if equation_active {
                    self.handle_editor_event(event)
                } else {
                    self.handle_settings_event(event)
                }
            },
            None => just(UpdateResult::Continue),
        }
    }
}

} // verus!
