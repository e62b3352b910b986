//! Tab header and non-graph content views, described as display lists.
//!
//! Each view is a sequence of firmware drawing operations: uniform
//! rectangles and NUL-terminated small-font strings with foreground and
//! background colors. The application replays a list with the firmware's
//! rectangle and string drawing; a region is always redrawn completely and
//! synchronously, never between graph band transfers.
use vstd::prelude::*;
use crate::editor::{
    template_at, template_name, EditorModel, EquationEditor, FunctionTemplate,
    FUNCTION_PICKER_ROWS, VISIBLE_CHARACTERS,
};
use crate::expression::ParseError;
use crate::functions::{
    function_pair, spec_function_pair, FunctionSet, FunctionSlot, MAX_FUNCTIONS,
    MAX_FUNCTION_PAIRS,
};
use crate::intersections::{has_bit, CacheModel, IntersectionCache};
use crate::graph::{
    spec_rgb565, GraphOptions, BUILTIN_PALETTE_COUNT, SOLID_SURFACE_COLORS, LightingPreset, RenderingMode, Rgb888, SurfacePalette};
use crate::settings::{
    appearance_item_at, custom_color_item_at, domain_field_at, settings_item_at, AppearanceItem,
    number_text_bytes, CustomColorItem, DomainField, NumberText, NumericError, SettingsItem, SettingsModel, SettingsPage,
    SettingsState, APPEARANCE_ITEM_COUNT, CUSTOM_COLOR_ITEM_COUNT, DOMAIN_FIELD_COUNT,
    NUMERIC_VISIBLE_CHARACTERS, SETTINGS_ITEM_COUNT,
};
use crate::surface::{DomainError, ResolutionPreset};
use crate::text::{format_render_performance, render_performance_text};
use crate::keys::{Color, Point, Rect};

verus! {

/// Header height; the graph renderer owns the remaining 320×216 viewport.
pub const HEADER_HEIGHT: u16 = 24;
pub const WHITE: u16 = 0xffff;
pub const BLACK: u16 = 0x0000;
pub const BLUE: u16 = 0x245f;
pub const LIGHT_BLUE: u16 = 0x9d7f;
pub const LIGHT_GRAY: u16 = 0xd69a;
pub const DARK_GRAY: u16 = 0x630c;
pub const ORANGE: u16 = 0xfd20;
pub const FIELD_BACKGROUND: u16 = 0xffdf;
pub const ERROR_RED: u16 = 0xb800;
/// Width of one small-font character.
pub const SMALL_FONT_CHARACTER_WIDTH: u16 = 7;

/// The displayed release version, maintained by hand and NUL-terminated for
/// the firmware's string drawing.
pub const APPLICATION_DISPLAY_VERSION: [u8; 7] = [118, 51, 46, 48, 46, 48, 0];

/// One firmware drawing operation.
#[derive(Clone, Debug)]
pub enum DrawCommand {
    /// A uniformly colored rectangle.
    Fill { rect: Rect, color: Color },
    /// Small-font text up to its first NUL, drawn at `at`.
    Text { text: Vec<u8>, at: Point, foreground: Color, background: Color },
}

/// Abstract drawing operation.
pub enum Drawing {
    Fill(Rect, Color),
    Text(Seq<u8>, Point, Color, Color),
}

impl View for DrawCommand {
    type V = Drawing;

    open spec fn view(&self) -> Drawing {
        match self {
            DrawCommand::Fill { rect, color } => Drawing::Fill(*rect, *color),
            DrawCommand::Text { text, at, foreground, background } => Drawing::Text(
                text@,
                *at,
                *foreground,
                *background,
            ),
        }
    }
}

/// The operations of a display list.
pub open spec fn drawings(commands: Seq<DrawCommand>) -> Seq<Drawing> {
    commands.map_values(|command: DrawCommand| command@)
}

/// A filled rectangle.
pub open spec fn fill(x: u16, y: u16, width: u16, height: u16, color: u16) -> Drawing {
    Drawing::Fill(Rect { x, y, width, height }, Color { rgb565: color })
}

/// A string.
pub open spec fn label(text: Seq<u8>, x: u16, y: u16, foreground: u16, background: u16) -> Drawing {
    Drawing::Text(text, Point { x, y }, Color { rgb565: foreground }, Color { rgb565: background })
}

fn push_fill(out: &mut Vec<DrawCommand>, x: u16, y: u16, width: u16, height: u16, color: u16)
    ensures
        drawings(final(out)@) == drawings(old(out)@).push(fill(x, y, width, height, color)),
{
    let command = DrawCommand::Fill { rect: Rect { x, y, width, height }, color: Color { rgb565: color } };
    out.push(command);
    proof {
        assert(drawings(out@) =~= drawings(old(out)@).push(fill(x, y, width, height, color)));
    }
}

fn copy_bytes(text: &[u8]) -> (copy: Vec<u8>)
    ensures
        copy@ == text@,
{
    let mut copy: Vec<u8> = Vec::new();
    let mut i: usize = 0;
    while i < text.len()
        invariant
            i <= text@.len(),
            copy@ == text@.subrange(0, i as int),
        decreases text@.len() - i,
    {
        copy.push(text[i]);
        i = i + 1;
    }
    proof {
        assert(copy@ =~= text@);
    }
    copy
}

fn push_text(
    out: &mut Vec<DrawCommand>,
    text: &[u8],
    x: u16,
    y: u16,
    foreground: u16,
    background: u16,
)
    ensures
        drawings(final(out)@) == drawings(old(out)@).push(
            label(text@, x, y, foreground, background),
        ),
{
    let command = DrawCommand::Text {
        text: copy_bytes(text),
        at: Point { x, y },
        foreground: Color { rgb565: foreground },
        background: Color { rgb565: background },
    };
    out.push(command);
    proof {
        assert(drawings(out@) =~= drawings(old(out)@).push(
            label(text@, x, y, foreground, background),
        ));
    }
}

/// Clears the content region below the header to white.
pub open spec fn clear_content() -> Drawing {
    fill(0, HEADER_HEIGHT, 320, 216, WHITE)
}

/// `Graph` followed by NUL.
pub open spec fn graph_text() -> Seq<u8> {
    seq![71u8, 114, 97, 112, 104, 0]
}

fn graph_bytes() -> (text: &'static [u8])
    ensures
        text@ == graph_text(),
{
    let text: &'static [u8] = &[71, 114, 97, 112, 104, 0];
    proof {
        assert(text@ =~= graph_text());
    }
    text
}

/// `Equation` followed by NUL.
pub open spec fn equation_text() -> Seq<u8> {
    seq![69u8, 113, 117, 97, 116, 105, 111, 110, 0]
}

fn equation_bytes() -> (text: &'static [u8])
    ensures
        text@ == equation_text(),
{
    let text: &'static [u8] = &[69, 113, 117, 97, 116, 105, 111, 110, 0];
    proof {
        assert(text@ =~= equation_text());
    }
    text
}

/// `Settings` followed by NUL.
pub open spec fn settings_text() -> Seq<u8> {
    seq![83u8, 101, 116, 116, 105, 110, 103, 115, 0]
}

fn settings_bytes() -> (text: &'static [u8])
    ensures
        text@ == settings_text(),
{
    let text: &'static [u8] = &[83, 101, 116, 116, 105, 110, 103, 115, 0];
    proof {
        assert(text@ =~= settings_text());
    }
    text
}

/// `Functions` followed by NUL.
pub open spec fn functions_text() -> Seq<u8> {
    seq![70u8, 117, 110, 99, 116, 105, 111, 110, 115, 0]
}

fn functions_bytes() -> (text: &'static [u8])
    ensures
        text@ == functions_text(),
{
    let text: &'static [u8] = &[70, 117, 110, 99, 116, 105, 111, 110, 115, 0];
    proof {
        assert(text@ =~= functions_text());
    }
    text
}

/// `EXE: graph   OK: tabs` followed by NUL.
pub open spec fn help_graph_text() -> Seq<u8> {
    seq![69u8, 88, 69, 58, 32, 103, 114, 97, 112, 104, 32, 32, 32, 79, 75, 58, 32, 116, 97, 98, 115, 0]
}

fn help_graph_bytes() -> (text: &'static [u8])
    ensures
        text@ == help_graph_text(),
{
    let text: &'static [u8] = &[69, 88, 69, 58, 32, 103, 114, 97, 112, 104, 32, 32, 32, 79, 75, 58, 32, 116, 97, 98, 115, 0];
    proof {
        assert(text@ =~= help_graph_text());
    }
    text
}

/// `Back: cancel   Shift+BS: clear` followed by NUL.
pub open spec fn help_cancel_text() -> Seq<u8> {
    seq![66u8, 97, 99, 107, 58, 32, 99, 97, 110, 99, 101, 108, 32, 32, 32, 83, 104, 105, 102, 116, 43, 66, 83, 58, 32, 99, 108, 101, 97, 114, 0]
}

fn help_cancel_bytes() -> (text: &'static [u8])
    ensures
        text@ == help_cancel_text(),
{
    let text: &'static [u8] = &[66, 97, 99, 107, 58, 32, 99, 97, 110, 99, 101, 108, 32, 32, 32, 83, 104, 105, 102, 116, 43, 66, 83, 58, 32, 99, 108, 101, 97, 114, 0];
    proof {
        assert(text@ =~= help_cancel_text());
    }
    text
}

/// `Toolbox: functions` followed by NUL.
pub open spec fn help_toolbox_text() -> Seq<u8> {
    seq![84u8, 111, 111, 108, 98, 111, 120, 58, 32, 102, 117, 110, 99, 116, 105, 111, 110, 115, 0]
}

fn help_toolbox_bytes() -> (text: &'static [u8])
    ensures
        text@ == help_toolbox_text(),
{
    let text: &'static [u8] = &[84, 111, 111, 108, 98, 111, 120, 58, 32, 102, 117, 110, 99, 116, 105, 111, 110, 115, 0];
    proof {
        assert(text@ =~= help_toolbox_text());
    }
    text
}

/// `Arrows: select  EXE: insert` followed by NUL.
pub open spec fn help_picker_text() -> Seq<u8> {
    seq![65u8, 114, 114, 111, 119, 115, 58, 32, 115, 101, 108, 101, 99, 116, 32, 32, 69, 88, 69, 58, 32, 105, 110, 115, 101, 114, 116, 0]
}

fn help_picker_bytes() -> (text: &'static [u8])
    ensures
        text@ == help_picker_text(),
{
    let text: &'static [u8] = &[65, 114, 114, 111, 119, 115, 58, 32, 115, 101, 108, 101, 99, 116, 32, 32, 69, 88, 69, 58, 32, 105, 110, 115, 101, 114, 116, 0];
    proof {
        assert(text@ =~= help_picker_text());
    }
    text
}

/// `Invalid character` followed by NUL.
pub open spec fn invalid_character_text() -> Seq<u8> {
    seq![73u8, 110, 118, 97, 108, 105, 100, 32, 99, 104, 97, 114, 97, 99, 116, 101, 114, 0]
}

fn invalid_character_bytes() -> (text: &'static [u8])
    ensures
        text@ == invalid_character_text(),
{
    let text: &'static [u8] = &[73, 110, 118, 97, 108, 105, 100, 32, 99, 104, 97, 114, 97, 99, 116, 101, 114, 0];
    proof {
        assert(text@ =~= invalid_character_text());
    }
    text
}

/// `Unknown function` followed by NUL.
pub open spec fn unknown_function_text() -> Seq<u8> {
    seq![85u8, 110, 107, 110, 111, 119, 110, 32, 102, 117, 110, 99, 116, 105, 111, 110, 0]
}

fn unknown_function_bytes() -> (text: &'static [u8])
    ensures
        text@ == unknown_function_text(),
{
    let text: &'static [u8] = &[85, 110, 107, 110, 111, 119, 110, 32, 102, 117, 110, 99, 116, 105, 111, 110, 0];
    proof {
        assert(text@ =~= unknown_function_text());
    }
    text
}

/// `Missing ')'` followed by NUL.
pub open spec fn missing_close_text() -> Seq<u8> {
    seq![77u8, 105, 115, 115, 105, 110, 103, 32, 39, 41, 39, 0]
}

fn missing_close_bytes() -> (text: &'static [u8])
    ensures
        text@ == missing_close_text(),
{
    let text: &'static [u8] = &[77, 105, 115, 115, 105, 110, 103, 32, 39, 41, 39, 0];
    proof {
        assert(text@ =~= missing_close_text());
    }
    text
}

/// `Missing '('` followed by NUL.
pub open spec fn missing_open_text() -> Seq<u8> {
    seq![77u8, 105, 115, 115, 105, 110, 103, 32, 39, 40, 39, 0]
}

fn missing_open_bytes() -> (text: &'static [u8])
    ensures
        text@ == missing_open_text(),
{
    let text: &'static [u8] = &[77, 105, 115, 115, 105, 110, 103, 32, 39, 40, 39, 0];
    proof {
        assert(text@ =~= missing_open_text());
    }
    text
}

/// `Expression too long` followed by NUL.
pub open spec fn too_long_text() -> Seq<u8> {
    seq![69u8, 120, 112, 114, 101, 115, 115, 105, 111, 110, 32, 116, 111, 111, 32, 108, 111, 110, 103, 0]
}

fn too_long_bytes() -> (text: &'static [u8])
    ensures
        text@ == too_long_text(),
{
    let text: &'static [u8] = &[69, 120, 112, 114, 101, 115, 115, 105, 111, 110, 32, 116, 111, 111, 32, 108, 111, 110, 103, 0];
    proof {
        assert(text@ =~= too_long_text());
    }
    text
}

/// `Expression too complex` followed by NUL.
pub open spec fn too_complex_text() -> Seq<u8> {
    seq![69u8, 120, 112, 114, 101, 115, 115, 105, 111, 110, 32, 116, 111, 111, 32, 99, 111, 109, 112, 108, 101, 120, 0]
}

fn too_complex_bytes() -> (text: &'static [u8])
    ensures
        text@ == too_complex_text(),
{
    let text: &'static [u8] = &[69, 120, 112, 114, 101, 115, 115, 105, 111, 110, 32, 116, 111, 111, 32, 99, 111, 109, 112, 108, 101, 120, 0];
    proof {
        assert(text@ =~= too_complex_text());
    }
    text
}

/// `Enter an expression` followed by NUL.
pub open spec fn enter_expression_text() -> Seq<u8> {
    seq![69u8, 110, 116, 101, 114, 32, 97, 110, 32, 101, 120, 112, 114, 101, 115, 115, 105, 111, 110, 0]
}

fn enter_expression_bytes() -> (text: &'static [u8])
    ensures
        text@ == enter_expression_text(),
{
    let text: &'static [u8] = &[69, 110, 116, 101, 114, 32, 97, 110, 32, 101, 120, 112, 114, 101, 115, 115, 105, 111, 110, 0];
    proof {
        assert(text@ =~= enter_expression_text());
    }
    text
}

/// `Invalid number` followed by NUL.
pub open spec fn invalid_number_text() -> Seq<u8> {
    seq![73u8, 110, 118, 97, 108, 105, 100, 32, 110, 117, 109, 98, 101, 114, 0]
}

fn invalid_number_bytes() -> (text: &'static [u8])
    ensures
        text@ == invalid_number_text(),
{
    let text: &'static [u8] = &[73, 110, 118, 97, 108, 105, 100, 32, 110, 117, 109, 98, 101, 114, 0];
    proof {
        assert(text@ =~= invalid_number_text());
    }
    text
}

/// `Invalid arguments` followed by NUL.
pub open spec fn invalid_arguments_text() -> Seq<u8> {
    seq![73u8, 110, 118, 97, 108, 105, 100, 32, 97, 114, 103, 117, 109, 101, 110, 116, 115, 0]
}

fn invalid_arguments_bytes() -> (text: &'static [u8])
    ensures
        text@ == invalid_arguments_text(),
{
    let text: &'static [u8] = &[73, 110, 118, 97, 108, 105, 100, 32, 97, 114, 103, 117, 109, 101, 110, 116, 115, 0];
    proof {
        assert(text@ =~= invalid_arguments_text());
    }
    text
}

/// `Invalid expression` followed by NUL.
pub open spec fn invalid_expression_text() -> Seq<u8> {
    seq![73u8, 110, 118, 97, 108, 105, 100, 32, 101, 120, 112, 114, 101, 115, 115, 105, 111, 110, 0]
}

fn invalid_expression_bytes() -> (text: &'static [u8])
    ensures
        text@ == invalid_expression_text(),
{
    let text: &'static [u8] = &[73, 110, 118, 97, 108, 105, 100, 32, 101, 120, 112, 114, 101, 115, 115, 105, 111, 110, 0];
    proof {
        assert(text@ =~= invalid_expression_text());
    }
    text
}

/// `Number too long` followed by NUL.
pub open spec fn number_too_long_text() -> Seq<u8> {
    seq![78u8, 117, 109, 98, 101, 114, 32, 116, 111, 111, 32, 108, 111, 110, 103, 0]
}

fn number_too_long_bytes() -> (text: &'static [u8])
    ensures
        text@ == number_too_long_text(),
{
    let text: &'static [u8] = &[78, 117, 109, 98, 101, 114, 32, 116, 111, 111, 32, 108, 111, 110, 103, 0];
    proof {
        assert(text@ =~= number_too_long_text());
    }
    text
}

/// `Finite values only` followed by NUL.
pub open spec fn finite_only_text() -> Seq<u8> {
    seq![70u8, 105, 110, 105, 116, 101, 32, 118, 97, 108, 117, 101, 115, 32, 111, 110, 108, 121, 0]
}

fn finite_only_bytes() -> (text: &'static [u8])
    ensures
        text@ == finite_only_text(),
{
    let text: &'static [u8] = &[70, 105, 110, 105, 116, 101, 32, 118, 97, 108, 117, 101, 115, 32, 111, 110, 108, 121, 0];
    proof {
        assert(text@ =~= finite_only_text());
    }
    text
}

/// `Minimum must be below maximum` followed by NUL.
pub open spec fn inverted_text() -> Seq<u8> {
    seq![77u8, 105, 110, 105, 109, 117, 109, 32, 109, 117, 115, 116, 32, 98, 101, 32, 98, 101, 108, 111, 119, 32, 109, 97, 120, 105, 109, 117, 109, 0]
}

fn inverted_bytes() -> (text: &'static [u8])
    ensures
        text@ == inverted_text(),
{
    let text: &'static [u8] = &[77, 105, 110, 105, 109, 117, 109, 32, 109, 117, 115, 116, 32, 98, 101, 32, 98, 101, 108, 111, 119, 32, 109, 97, 120, 105, 109, 117, 109, 0];
    proof {
        assert(text@ =~= inverted_text());
    }
    text
}

/// `Domain is too narrow` followed by NUL.
pub open spec fn too_narrow_text() -> Seq<u8> {
    seq![68u8, 111, 109, 97, 105, 110, 32, 105, 115, 32, 116, 111, 111, 32, 110, 97, 114, 114, 111, 119, 0]
}

fn too_narrow_bytes() -> (text: &'static [u8])
    ensures
        text@ == too_narrow_text(),
{
    let text: &'static [u8] = &[68, 111, 109, 97, 105, 110, 32, 105, 115, 32, 116, 111, 111, 32, 110, 97, 114, 114, 111, 119, 0];
    proof {
        assert(text@ =~= too_narrow_text());
    }
    text
}

/// `Domain is too large` followed by NUL.
pub open spec fn too_large_text() -> Seq<u8> {
    seq![68u8, 111, 109, 97, 105, 110, 32, 105, 115, 32, 116, 111, 111, 32, 108, 97, 114, 103, 101, 0]
}

fn too_large_bytes() -> (text: &'static [u8])
    ensures
        text@ == too_large_text(),
{
    let text: &'static [u8] = &[68, 111, 109, 97, 105, 110, 32, 105, 115, 32, 116, 111, 111, 32, 108, 97, 114, 103, 101, 0];
    proof {
        assert(text@ =~= too_large_text());
    }
    text
}

/// `Enter an integer from 0 to 255` followed by NUL.
pub open spec fn channel_range_text() -> Seq<u8> {
    seq![69u8, 110, 116, 101, 114, 32, 97, 110, 32, 105, 110, 116, 101, 103, 101, 114, 32, 102, 114, 111, 109, 32, 48, 32, 116, 111, 32, 50, 53, 53, 0]
}

fn channel_range_bytes() -> (text: &'static [u8])
    ensures
        text@ == channel_range_text(),
{
    let text: &'static [u8] = &[69, 110, 116, 101, 114, 32, 97, 110, 32, 105, 110, 116, 101, 103, 101, 114, 32, 102, 114, 111, 109, 32, 48, 32, 116, 111, 32, 50, 53, 53, 0];
    proof {
        assert(text@ =~= channel_range_text());
    }
    text
}

/// `Rendering` followed by NUL.
pub open spec fn rendering_text() -> Seq<u8> {
    seq![82u8, 101, 110, 100, 101, 114, 105, 110, 103, 0]
}

fn rendering_bytes() -> (text: &'static [u8])
    ensures
        text@ == rendering_text(),
{
    let text: &'static [u8] = &[82, 101, 110, 100, 101, 114, 105, 110, 103, 0];
    proof {
        assert(text@ =~= rendering_text());
    }
    text
}

/// `Ground grid` followed by NUL.
pub open spec fn ground_grid_text() -> Seq<u8> {
    seq![71u8, 114, 111, 117, 110, 100, 32, 103, 114, 105, 100, 0]
}

fn ground_grid_bytes() -> (text: &'static [u8])
    ensures
        text@ == ground_grid_text(),
{
    let text: &'static [u8] = &[71, 114, 111, 117, 110, 100, 32, 103, 114, 105, 100, 0];
    proof {
        assert(text@ =~= ground_grid_text());
    }
    text
}

/// `Axes` followed by NUL.
pub open spec fn axes_text() -> Seq<u8> {
    seq![65u8, 120, 101, 115, 0]
}

fn axes_bytes() -> (text: &'static [u8])
    ensures
        text@ == axes_text(),
{
    let text: &'static [u8] = &[65, 120, 101, 115, 0];
    proof {
        assert(text@ =~= axes_text());
    }
    text
}

/// `Ticks` followed by NUL.
pub open spec fn ticks_text() -> Seq<u8> {
    seq![84u8, 105, 99, 107, 115, 0]
}

fn ticks_bytes() -> (text: &'static [u8])
    ensures
        text@ == ticks_text(),
{
    let text: &'static [u8] = &[84, 105, 99, 107, 115, 0];
    proof {
        assert(text@ =~= ticks_text());
    }
    text
}

/// `Labels` followed by NUL.
pub open spec fn labels_text() -> Seq<u8> {
    seq![76u8, 97, 98, 101, 108, 115, 0]
}

fn labels_bytes() -> (text: &'static [u8])
    ensures
        text@ == labels_text(),
{
    let text: &'static [u8] = &[76, 97, 98, 101, 108, 115, 0];
    proof {
        assert(text@ =~= labels_text());
    }
    text
}

/// `Domain` followed by NUL.
pub open spec fn domain_text() -> Seq<u8> {
    seq![68u8, 111, 109, 97, 105, 110, 0]
}

fn domain_bytes() -> (text: &'static [u8])
    ensures
        text@ == domain_text(),
{
    let text: &'static [u8] = &[68, 111, 109, 97, 105, 110, 0];
    proof {
        assert(text@ =~= domain_text());
    }
    text
}

/// `Reset camera` followed by NUL.
pub open spec fn reset_camera_text() -> Seq<u8> {
    seq![82u8, 101, 115, 101, 116, 32, 99, 97, 109, 101, 114, 97, 0]
}

fn reset_camera_bytes() -> (text: &'static [u8])
    ensures
        text@ == reset_camera_text(),
{
    let text: &'static [u8] = &[82, 101, 115, 101, 116, 32, 99, 97, 109, 101, 114, 97, 0];
    proof {
        assert(text@ =~= reset_camera_text());
    }
    text
}

/// `Performance` followed by NUL.
pub open spec fn performance_text() -> Seq<u8> {
    seq![80u8, 101, 114, 102, 111, 114, 109, 97, 110, 99, 101, 0]
}

fn performance_bytes() -> (text: &'static [u8])
    ensures
        text@ == performance_text(),
{
    let text: &'static [u8] = &[80, 101, 114, 102, 111, 114, 109, 97, 110, 99, 101, 0];
    proof {
        assert(text@ =~= performance_text());
    }
    text
}

/// `Wireframe >` followed by NUL.
pub open spec fn wireframe_text() -> Seq<u8> {
    seq![87u8, 105, 114, 101, 102, 114, 97, 109, 101, 32, 62, 0]
}

fn wireframe_bytes() -> (text: &'static [u8])
    ensures
        text@ == wireframe_text(),
{
    let text: &'static [u8] = &[87, 105, 114, 101, 102, 114, 97, 109, 101, 32, 62, 0];
    proof {
        assert(text@ =~= wireframe_text());
    }
    text
}

/// `Solid >` followed by NUL.
pub open spec fn solid_text() -> Seq<u8> {
    seq![83u8, 111, 108, 105, 100, 32, 62, 0]
}

fn solid_bytes() -> (text: &'static [u8])
    ensures
        text@ == solid_text(),
{
    let text: &'static [u8] = &[83, 111, 108, 105, 100, 32, 62, 0];
    proof {
        assert(text@ =~= solid_text());
    }
    text
}

/// `On` followed by NUL.
pub open spec fn on_text() -> Seq<u8> {
    seq![79u8, 110, 0]
}

fn on_bytes() -> (text: &'static [u8])
    ensures
        text@ == on_text(),
{
    let text: &'static [u8] = &[79, 110, 0];
    proof {
        assert(text@ =~= on_text());
    }
    text
}

/// `Off` followed by NUL.
pub open spec fn off_text() -> Seq<u8> {
    seq![79u8, 102, 102, 0]
}

fn off_bytes() -> (text: &'static [u8])
    ensures
        text@ == off_text(),
{
    let text: &'static [u8] = &[79, 102, 102, 0];
    proof {
        assert(text@ =~= off_text());
    }
    text
}

/// `EXE >` followed by NUL.
pub open spec fn exe_more_text() -> Seq<u8> {
    seq![69u8, 88, 69, 32, 62, 0]
}

fn exe_more_bytes() -> (text: &'static [u8])
    ensures
        text@ == exe_more_text(),
{
    let text: &'static [u8] = &[69, 88, 69, 32, 62, 0];
    proof {
        assert(text@ =~= exe_more_text());
    }
    text
}

/// `EXE` followed by NUL.
pub open spec fn exe_text() -> Seq<u8> {
    seq![69u8, 88, 69, 0]
}

fn exe_bytes() -> (text: &'static [u8])
    ensures
        text@ == exe_text(),
{
    let text: &'static [u8] = &[69, 88, 69, 0];
    proof {
        assert(text@ =~= exe_text());
    }
    text
}

/// `Solid appearance` followed by NUL.
pub open spec fn solid_appearance_text() -> Seq<u8> {
    seq![83u8, 111, 108, 105, 100, 32, 97, 112, 112, 101, 97, 114, 97, 110, 99, 101, 0]
}

fn solid_appearance_bytes() -> (text: &'static [u8])
    ensures
        text@ == solid_appearance_text(),
{
    let text: &'static [u8] = &[83, 111, 108, 105, 100, 32, 97, 112, 112, 101, 97, 114, 97, 110, 99, 101, 0];
    proof {
        assert(text@ =~= solid_appearance_text());
    }
    text
}

/// `Lighting` followed by NUL.
pub open spec fn lighting_text() -> Seq<u8> {
    seq![76u8, 105, 103, 104, 116, 105, 110, 103, 0]
}

fn lighting_bytes() -> (text: &'static [u8])
    ensures
        text@ == lighting_text(),
{
    let text: &'static [u8] = &[76, 105, 103, 104, 116, 105, 110, 103, 0];
    proof {
        assert(text@ =~= lighting_text());
    }
    text
}

/// `Surface color` followed by NUL.
pub open spec fn surface_color_text() -> Seq<u8> {
    seq![83u8, 117, 114, 102, 97, 99, 101, 32, 99, 111, 108, 111, 114, 0]
}

fn surface_color_bytes() -> (text: &'static [u8])
    ensures
        text@ == surface_color_text(),
{
    let text: &'static [u8] = &[83, 117, 114, 102, 97, 99, 101, 32, 99, 111, 108, 111, 114, 0];
    proof {
        assert(text@ =~= surface_color_text());
    }
    text
}

/// `Resolution` followed by NUL.
pub open spec fn resolution_text() -> Seq<u8> {
    seq![82u8, 101, 115, 111, 108, 117, 116, 105, 111, 110, 0]
}

fn resolution_bytes() -> (text: &'static [u8])
    ensures
        text@ == resolution_text(),
{
    let text: &'static [u8] = &[82, 101, 115, 111, 108, 117, 116, 105, 111, 110, 0];
    proof {
        assert(text@ =~= resolution_text());
    }
    text
}

/// `Auto rotate` followed by NUL.
pub open spec fn auto_rotate_text() -> Seq<u8> {
    seq![65u8, 117, 116, 111, 32, 114, 111, 116, 97, 116, 101, 0]
}

fn auto_rotate_bytes() -> (text: &'static [u8])
    ensures
        text@ == auto_rotate_text(),
{
    let text: &'static [u8] = &[65, 117, 116, 111, 32, 114, 111, 116, 97, 116, 101, 0];
    proof {
        assert(text@ =~= auto_rotate_text());
    }
    text
}

/// `Left/Right: change   Back: settings` followed by NUL.
pub open spec fn appearance_help_text() -> Seq<u8> {
    seq![76u8, 101, 102, 116, 47, 82, 105, 103, 104, 116, 58, 32, 99, 104, 97, 110, 103, 101, 32, 32, 32, 66, 97, 99, 107, 58, 32, 115, 101, 116, 116, 105, 110, 103, 115, 0]
}

fn appearance_help_bytes() -> (text: &'static [u8])
    ensures
        text@ == appearance_help_text(),
{
    let text: &'static [u8] = &[76, 101, 102, 116, 47, 82, 105, 103, 104, 116, 58, 32, 99, 104, 97, 110, 103, 101, 32, 32, 32, 66, 97, 99, 107, 58, 32, 115, 101, 116, 116, 105, 110, 103, 115, 0];
    proof {
        assert(text@ =~= appearance_help_text());
    }
    text
}

/// `Standard` followed by NUL.
pub open spec fn standard_text() -> Seq<u8> {
    seq![83u8, 116, 97, 110, 100, 97, 114, 100, 0]
}

fn standard_bytes() -> (text: &'static [u8])
    ensures
        text@ == standard_text(),
{
    let text: &'static [u8] = &[83, 116, 97, 110, 100, 97, 114, 100, 0];
    proof {
        assert(text@ =~= standard_text());
    }
    text
}

/// `Soft` followed by NUL.
pub open spec fn soft_text() -> Seq<u8> {
    seq![83u8, 111, 102, 116, 0]
}

fn soft_bytes() -> (text: &'static [u8])
    ensures
        text@ == soft_text(),
{
    let text: &'static [u8] = &[83, 111, 102, 116, 0];
    proof {
        assert(text@ =~= soft_text());
    }
    text
}

/// `Strong` followed by NUL.
pub open spec fn strong_text() -> Seq<u8> {
    seq![83u8, 116, 114, 111, 110, 103, 0]
}

fn strong_bytes() -> (text: &'static [u8])
    ensures
        text@ == strong_text(),
{
    let text: &'static [u8] = &[83, 116, 114, 111, 110, 103, 0];
    proof {
        assert(text@ =~= strong_text());
    }
    text
}

/// `Low 17x13` followed by NUL.
pub open spec fn low_grid_text() -> Seq<u8> {
    seq![76u8, 111, 119, 32, 49, 55, 120, 49, 51, 0]
}

fn low_grid_bytes() -> (text: &'static [u8])
    ensures
        text@ == low_grid_text(),
{
    let text: &'static [u8] = &[76, 111, 119, 32, 49, 55, 120, 49, 51, 0];
    proof {
        assert(text@ =~= low_grid_text());
    }
    text
}

/// `Standard 25x19` followed by NUL.
pub open spec fn standard_grid_text() -> Seq<u8> {
    seq![83u8, 116, 97, 110, 100, 97, 114, 100, 32, 50, 53, 120, 49, 57, 0]
}

fn standard_grid_bytes() -> (text: &'static [u8])
    ensures
        text@ == standard_grid_text(),
{
    let text: &'static [u8] = &[83, 116, 97, 110, 100, 97, 114, 100, 32, 50, 53, 120, 49, 57, 0];
    proof {
        assert(text@ =~= standard_grid_text());
    }
    text
}

/// `High 33x25` followed by NUL.
pub open spec fn high_grid_text() -> Seq<u8> {
    seq![72u8, 105, 103, 104, 32, 51, 51, 120, 50, 53, 0]
}

fn high_grid_bytes() -> (text: &'static [u8])
    ensures
        text@ == high_grid_text(),
{
    let text: &'static [u8] = &[72, 105, 103, 104, 32, 51, 51, 120, 50, 53, 0];
    proof {
        assert(text@ =~= high_grid_text());
    }
    text
}

/// `Blue` followed by NUL.
pub open spec fn blue_text() -> Seq<u8> {
    seq![66u8, 108, 117, 101, 0]
}

fn blue_bytes() -> (text: &'static [u8])
    ensures
        text@ == blue_text(),
{
    let text: &'static [u8] = &[66, 108, 117, 101, 0];
    proof {
        assert(text@ =~= blue_text());
    }
    text
}

/// `Green` followed by NUL.
pub open spec fn green_text() -> Seq<u8> {
    seq![71u8, 114, 101, 101, 110, 0]
}

fn green_bytes() -> (text: &'static [u8])
    ensures
        text@ == green_text(),
{
    let text: &'static [u8] = &[71, 114, 101, 101, 110, 0];
    proof {
        assert(text@ =~= green_text());
    }
    text
}

/// `Orange` followed by NUL.
pub open spec fn orange_text() -> Seq<u8> {
    seq![79u8, 114, 97, 110, 103, 101, 0]
}

fn orange_bytes() -> (text: &'static [u8])
    ensures
        text@ == orange_text(),
{
    let text: &'static [u8] = &[79, 114, 97, 110, 103, 101, 0];
    proof {
        assert(text@ =~= orange_text());
    }
    text
}

/// `Purple` followed by NUL.
pub open spec fn purple_text() -> Seq<u8> {
    seq![80u8, 117, 114, 112, 108, 101, 0]
}

fn purple_bytes() -> (text: &'static [u8])
    ensures
        text@ == purple_text(),
{
    let text: &'static [u8] = &[80, 117, 114, 112, 108, 101, 0];
    proof {
        assert(text@ =~= purple_text());
    }
    text
}

/// `Gray` followed by NUL.
pub open spec fn gray_text() -> Seq<u8> {
    seq![71u8, 114, 97, 121, 0]
}

fn gray_bytes() -> (text: &'static [u8])
    ensures
        text@ == gray_text(),
{
    let text: &'static [u8] = &[71, 114, 97, 121, 0];
    proof {
        assert(text@ =~= gray_text());
    }
    text
}

/// `Red` followed by NUL.
pub open spec fn red_text() -> Seq<u8> {
    seq![82u8, 101, 100, 0]
}

fn red_bytes() -> (text: &'static [u8])
    ensures
        text@ == red_text(),
{
    let text: &'static [u8] = &[82, 101, 100, 0];
    proof {
        assert(text@ =~= red_text());
    }
    text
}

/// `Cyan` followed by NUL.
pub open spec fn cyan_text() -> Seq<u8> {
    seq![67u8, 121, 97, 110, 0]
}

fn cyan_bytes() -> (text: &'static [u8])
    ensures
        text@ == cyan_text(),
{
    let text: &'static [u8] = &[67, 121, 97, 110, 0];
    proof {
        assert(text@ =~= cyan_text());
    }
    text
}

/// `Yellow` followed by NUL.
pub open spec fn yellow_text() -> Seq<u8> {
    seq![89u8, 101, 108, 108, 111, 119, 0]
}

fn yellow_bytes() -> (text: &'static [u8])
    ensures
        text@ == yellow_text(),
{
    let text: &'static [u8] = &[89, 101, 108, 108, 111, 119, 0];
    proof {
        assert(text@ =~= yellow_text());
    }
    text
}

/// `White` followed by NUL.
pub open spec fn white_text() -> Seq<u8> {
    seq![87u8, 104, 105, 116, 101, 0]
}

fn white_bytes() -> (text: &'static [u8])
    ensures
        text@ == white_text(),
{
    let text: &'static [u8] = &[87, 104, 105, 116, 101, 0];
    proof {
        assert(text@ =~= white_text());
    }
    text
}

/// `Custom` followed by NUL.
pub open spec fn custom_text() -> Seq<u8> {
    seq![67u8, 117, 115, 116, 111, 109, 0]
}

fn custom_bytes() -> (text: &'static [u8])
    ensures
        text@ == custom_text(),
{
    let text: &'static [u8] = &[67, 117, 115, 116, 111, 109, 0];
    proof {
        assert(text@ =~= custom_text());
    }
    text
}

/// `Custom color` followed by NUL.
pub open spec fn custom_color_text() -> Seq<u8> {
    seq![67u8, 117, 115, 116, 111, 109, 32, 99, 111, 108, 111, 114, 0]
}

fn custom_color_bytes() -> (text: &'static [u8])
    ensures
        text@ == custom_color_text(),
{
    let text: &'static [u8] = &[67, 117, 115, 116, 111, 109, 32, 99, 111, 108, 111, 114, 0];
    proof {
        assert(text@ =~= custom_color_text());
    }
    text
}

/// `Preview` followed by NUL.
pub open spec fn preview_text() -> Seq<u8> {
    seq![80u8, 114, 101, 118, 105, 101, 119, 0]
}

fn preview_bytes() -> (text: &'static [u8])
    ensures
        text@ == preview_text(),
{
    let text: &'static [u8] = &[80, 114, 101, 118, 105, 101, 119, 0];
    proof {
        assert(text@ =~= preview_text());
    }
    text
}

/// `Apply` followed by NUL.
pub open spec fn apply_text() -> Seq<u8> {
    seq![65u8, 112, 112, 108, 121, 0]
}

fn apply_bytes() -> (text: &'static [u8])
    ensures
        text@ == apply_text(),
{
    let text: &'static [u8] = &[65, 112, 112, 108, 121, 0];
    proof {
        assert(text@ =~= apply_text());
    }
    text
}

/// `EXE: set channel   Back: cancel` followed by NUL.
pub open spec fn channel_help_text() -> Seq<u8> {
    seq![69u8, 88, 69, 58, 32, 115, 101, 116, 32, 99, 104, 97, 110, 110, 101, 108, 32, 32, 32, 66, 97, 99, 107, 58, 32, 99, 97, 110, 99, 101, 108, 0]
}

fn channel_help_bytes() -> (text: &'static [u8])
    ensures
        text@ == channel_help_text(),
{
    let text: &'static [u8] = &[69, 88, 69, 58, 32, 115, 101, 116, 32, 99, 104, 97, 110, 110, 101, 108, 32, 32, 32, 66, 97, 99, 107, 58, 32, 99, 97, 110, 99, 101, 108, 0];
    proof {
        assert(text@ =~= channel_help_text());
    }
    text
}

/// `Left/Right: +/-8   EXE: edit/apply` followed by NUL.
pub open spec fn custom_help_text() -> Seq<u8> {
    seq![76u8, 101, 102, 116, 47, 82, 105, 103, 104, 116, 58, 32, 43, 47, 45, 56, 32, 32, 32, 69, 88, 69, 58, 32, 101, 100, 105, 116, 47, 97, 112, 112, 108, 121, 0]
}

fn custom_help_bytes() -> (text: &'static [u8])
    ensures
        text@ == custom_help_text(),
{
    let text: &'static [u8] = &[76, 101, 102, 116, 47, 82, 105, 103, 104, 116, 58, 32, 43, 47, 45, 56, 32, 32, 32, 69, 88, 69, 58, 32, 101, 100, 105, 116, 47, 97, 112, 112, 108, 121, 0];
    proof {
        assert(text@ =~= custom_help_text());
    }
    text
}

/// `Graph domain` followed by NUL.
pub open spec fn graph_domain_text() -> Seq<u8> {
    seq![71u8, 114, 97, 112, 104, 32, 100, 111, 109, 97, 105, 110, 0]
}

fn graph_domain_bytes() -> (text: &'static [u8])
    ensures
        text@ == graph_domain_text(),
{
    let text: &'static [u8] = &[71, 114, 97, 112, 104, 32, 100, 111, 109, 97, 105, 110, 0];
    proof {
        assert(text@ =~= graph_domain_text());
    }
    text
}

/// `Xmin` followed by NUL.
pub open spec fn xmin_text() -> Seq<u8> {
    seq![88u8, 109, 105, 110, 0]
}

fn xmin_bytes() -> (text: &'static [u8])
    ensures
        text@ == xmin_text(),
{
    let text: &'static [u8] = &[88, 109, 105, 110, 0];
    proof {
        assert(text@ =~= xmin_text());
    }
    text
}

/// `Xmax` followed by NUL.
pub open spec fn xmax_text() -> Seq<u8> {
    seq![88u8, 109, 97, 120, 0]
}

fn xmax_bytes() -> (text: &'static [u8])
    ensures
        text@ == xmax_text(),
{
    let text: &'static [u8] = &[88, 109, 97, 120, 0];
    proof {
        assert(text@ =~= xmax_text());
    }
    text
}

/// `Ymin` followed by NUL.
pub open spec fn ymin_text() -> Seq<u8> {
    seq![89u8, 109, 105, 110, 0]
}

fn ymin_bytes() -> (text: &'static [u8])
    ensures
        text@ == ymin_text(),
{
    let text: &'static [u8] = &[89, 109, 105, 110, 0];
    proof {
        assert(text@ =~= ymin_text());
    }
    text
}

/// `Ymax` followed by NUL.
pub open spec fn ymax_text() -> Seq<u8> {
    seq![89u8, 109, 97, 120, 0]
}

fn ymax_bytes() -> (text: &'static [u8])
    ensures
        text@ == ymax_text(),
{
    let text: &'static [u8] = &[89, 109, 97, 120, 0];
    proof {
        assert(text@ =~= ymax_text());
    }
    text
}

/// `EXE: apply   Back: cancel` followed by NUL.
pub open spec fn domain_edit_help_text() -> Seq<u8> {
    seq![69u8, 88, 69, 58, 32, 97, 112, 112, 108, 121, 32, 32, 32, 66, 97, 99, 107, 58, 32, 99, 97, 110, 99, 101, 108, 0]
}

fn domain_edit_help_bytes() -> (text: &'static [u8])
    ensures
        text@ == domain_edit_help_text(),
{
    let text: &'static [u8] = &[69, 88, 69, 58, 32, 97, 112, 112, 108, 121, 32, 32, 32, 66, 97, 99, 107, 58, 32, 99, 97, 110, 99, 101, 108, 0];
    proof {
        assert(text@ =~= domain_edit_help_text());
    }
    text
}

/// `EXE: edit   Back: settings` followed by NUL.
pub open spec fn domain_help_text() -> Seq<u8> {
    seq![69u8, 88, 69, 58, 32, 101, 100, 105, 116, 32, 32, 32, 66, 97, 99, 107, 58, 32, 115, 101, 116, 116, 105, 110, 103, 115, 0]
}

fn domain_help_bytes() -> (text: &'static [u8])
    ensures
        text@ == domain_help_text(),
{
    let text: &'static [u8] = &[69, 88, 69, 58, 32, 101, 100, 105, 116, 32, 32, 32, 66, 97, 99, 107, 58, 32, 115, 101, 116, 116, 105, 110, 103, 115, 0];
    proof {
        assert(text@ =~= domain_help_text());
    }
    text
}

/// `EXE: details  Toolbox: intersections` followed by NUL.
pub open spec fn function_list_help_text() -> Seq<u8> {
    seq![69u8, 88, 69, 58, 32, 100, 101, 116, 97, 105, 108, 115, 32, 32, 84, 111, 111, 108, 98, 111, 120, 58, 32, 105, 110, 116, 101, 114, 115, 101, 99, 116, 105, 111, 110, 115, 0]
}

fn function_list_help_bytes() -> (text: &'static [u8])
    ensures
        text@ == function_list_help_text(),
{
    let text: &'static [u8] = &[69, 88, 69, 58, 32, 100, 101, 116, 97, 105, 108, 115, 32, 32, 84, 111, 111, 108, 98, 111, 120, 58, 32, 105, 110, 116, 101, 114, 115, 101, 99, 116, 105, 111, 110, 115, 0];
    proof {
        assert(text@ =~= function_list_help_text());
    }
    text
}

/// `Enabled` followed by NUL.
pub open spec fn enabled_text() -> Seq<u8> {
    seq![69u8, 110, 97, 98, 108, 101, 100, 0]
}

fn enabled_bytes() -> (text: &'static [u8])
    ensures
        text@ == enabled_text(),
{
    let text: &'static [u8] = &[69, 110, 97, 98, 108, 101, 100, 0];
    proof {
        assert(text@ =~= enabled_text());
    }
    text
}

/// `Expression` followed by NUL.
pub open spec fn expression_text() -> Seq<u8> {
    seq![69u8, 120, 112, 114, 101, 115, 115, 105, 111, 110, 0]
}

fn expression_bytes() -> (text: &'static [u8])
    ensures
        text@ == expression_text(),
{
    let text: &'static [u8] = &[69, 120, 112, 114, 101, 115, 115, 105, 111, 110, 0];
    proof {
        assert(text@ =~= expression_text());
    }
    text
}

/// `Color` followed by NUL.
pub open spec fn color_text() -> Seq<u8> {
    seq![67u8, 111, 108, 111, 114, 0]
}

fn color_bytes() -> (text: &'static [u8])
    ensures
        text@ == color_text(),
{
    let text: &'static [u8] = &[67, 111, 108, 111, 114, 0];
    proof {
        assert(text@ =~= color_text());
    }
    text
}

/// `Draft not applied` followed by NUL.
pub open spec fn draft_not_applied_text() -> Seq<u8> {
    seq![68u8, 114, 97, 102, 116, 32, 110, 111, 116, 32, 97, 112, 112, 108, 105, 101, 100, 0]
}

fn draft_not_applied_bytes() -> (text: &'static [u8])
    ensures
        text@ == draft_not_applied_text(),
{
    let text: &'static [u8] = &[68, 114, 97, 102, 116, 32, 110, 111, 116, 32, 97, 112, 112, 108, 105, 101, 100, 0];
    proof {
        assert(text@ =~= draft_not_applied_text());
    }
    text
}

/// `Enter 0..255` followed by NUL.
pub open spec fn enter_channel_text() -> Seq<u8> {
    seq![69u8, 110, 116, 101, 114, 32, 48, 46, 46, 50, 53, 53, 0]
}

fn enter_channel_bytes() -> (text: &'static [u8])
    ensures
        text@ == enter_channel_text(),
{
    let text: &'static [u8] = &[69, 110, 116, 101, 114, 32, 48, 46, 46, 50, 53, 53, 0];
    proof {
        assert(text@ =~= enter_channel_text());
    }
    text
}

/// `Intersections` followed by NUL.
pub open spec fn intersections_text() -> Seq<u8> {
    seq![73u8, 110, 116, 101, 114, 115, 101, 99, 116, 105, 111, 110, 115, 0]
}

fn intersections_bytes() -> (text: &'static [u8])
    ensures
        text@ == intersections_text(),
{
    let text: &'static [u8] = &[73, 110, 116, 101, 114, 115, 101, 99, 116, 105, 111, 110, 115, 0];
    proof {
        assert(text@ =~= intersections_text());
    }
    text
}

/// `Disabled` followed by NUL.
pub open spec fn disabled_text() -> Seq<u8> {
    seq![68u8, 105, 115, 97, 98, 108, 101, 100, 0]
}

fn disabled_bytes() -> (text: &'static [u8])
    ensures
        text@ == disabled_text(),
{
    let text: &'static [u8] = &[68, 105, 115, 97, 98, 108, 101, 100, 0];
    proof {
        assert(text@ =~= disabled_text());
    }
    text
}

/// `None` followed by NUL.
pub open spec fn none_text() -> Seq<u8> {
    seq![78u8, 111, 110, 101, 0]
}

fn none_bytes() -> (text: &'static [u8])
    ensures
        text@ == none_text(),
{
    let text: &'static [u8] = &[78, 111, 110, 101, 0];
    proof {
        assert(text@ =~= none_text());
    }
    text
}

/// `+` followed by NUL.
pub open spec fn plus_text() -> Seq<u8> {
    seq![43u8, 0]
}

fn plus_bytes() -> (text: &'static [u8])
    ensures
        text@ == plus_text(),
{
    let text: &'static [u8] = &[43, 0];
    proof {
        assert(text@ =~= plus_text());
    }
    text
}

/// `x` followed by NUL.
pub open spec fn x_name_text() -> Seq<u8> {
    seq![120u8, 0]
}

fn x_name_bytes() -> (text: &'static [u8])
    ensures
        text@ == x_name_text(),
{
    let text: &'static [u8] = &[120, 0];
    proof {
        assert(text@ =~= x_name_text());
    }
    text
}

/// `y` followed by NUL.
pub open spec fn y_name_text() -> Seq<u8> {
    seq![121u8, 0]
}

fn y_name_bytes() -> (text: &'static [u8])
    ensures
        text@ == y_name_text(),
{
    let text: &'static [u8] = &[121, 0];
    proof {
        assert(text@ =~= y_name_text());
    }
    text
}

/// `z` followed by NUL.
pub open spec fn z_name_text() -> Seq<u8> {
    seq![122u8, 0]
}

fn z_name_bytes() -> (text: &'static [u8])
    ensures
        text@ == z_name_text(),
{
    let text: &'static [u8] = &[122, 0];
    proof {
        assert(text@ =~= z_name_text());
    }
    text
}

pub open spec fn tab_label(index: int) -> Seq<u8> {
    if index == 0 {
        graph_text()
    } else if index == 1 {
        equation_text()
    } else {
        settings_text()
    }
}

pub open spec fn tab_x(index: int) -> u16 {
    if index == 0 {
        0
    } else if index == 1 {
        106
    } else {
        213
    }
}

pub open spec fn tab_width(index: int) -> u16 {
    if index == 0 {
        106
    } else {
        107
    }
}

pub open spec fn tab_text_x(index: int) -> u16 {
    if index == 0 {
        31
    } else if index == 1 {
        126
    } else {
        235
    }
}

/// One tab: its background (light blue when highlighted in the focused tab
/// bar, blue when active, light gray otherwise) and its name (white on the
/// active tab).
pub open spec fn header_tab(index: int, active: int, selected: int, focused: bool) -> Seq<Drawing> {
    let is_active = index == active;
    let is_selected = focused && index == selected;
    let background = if is_selected {
        LIGHT_BLUE
    } else if is_active {
        BLUE
    } else {
        LIGHT_GRAY
    };
    let foreground = if is_active {
        WHITE
    } else {
        BLACK
    };
    seq![
        fill(tab_x(index), 0, tab_width(index), HEADER_HEIGHT, background),
        label(tab_label(index), tab_text_x(index), 4, foreground, background),
    ]
}

pub open spec fn header_tabs(n: int, active: int, selected: int, focused: bool) -> Seq<Drawing>
    decreases n,
{
    if n <= 0 {
        Seq::empty()
    } else {
        header_tabs(n - 1, active, selected, focused) + header_tab(n - 1, active, selected, focused)
    }
}

/// All three tabs, then a three-pixel indicator under the highlighted tab
/// (orange) when the tab bar has focus, else under the active tab (gray).
pub open spec fn header_drawing(active: int, selected: int, focused: bool) -> Seq<Drawing> {
    let indicator = if focused {
        selected
    } else {
        active
    };
    header_tabs(3, active, selected, focused) + seq![
        fill(
            tab_x(indicator),
            (HEADER_HEIGHT - 3) as u16,
            tab_width(indicator),
            3,
            if focused {
                ORANGE
            } else {
                DARK_GRAY
            },
        ),
    ]
}

fn tab_geometry(index: usize) -> (geometry: (u16, u16, u16))
    ensures
        geometry == (tab_x(index as int), tab_width(index as int), tab_text_x(index as int)),
{
    if index == 0 {
        (0, 106, 31)
    } else if index == 1 {
        (106, 107, 126)
    } else {
        (213, 107, 235)
    }
}

fn tab_label_bytes(index: usize) -> (text: &'static [u8])
    ensures
        text@ == tab_label(index as int),
{
    if index == 0 {
        graph_bytes()
    } else if index == 1 {
        equation_bytes()
    } else {
        settings_bytes()
    }
}

/// Display list of the tab header (the indicated tab, `selected` when the
/// tab bar has focus and `active` otherwise, is below 3).
pub fn draw_header(active: usize, selected: usize, tabs_focused: bool) -> (commands: Vec<DrawCommand>)
    requires
        tabs_focused ==> selected < 3,
        !tabs_focused ==> active < 3,
    ensures
        drawings(commands@) == header_drawing(active as int, selected as int, tabs_focused),
{
    let mut out: Vec<DrawCommand> = Vec::new();
    let mut index: usize = 0;
    while index < 3
        invariant
            index <= 3,
            drawings(out@) == header_tabs(index as int, active as int, selected as int, tabs_focused),
        decreases 3 - index,
    {
        let is_active = index == active;
        let is_selected = tabs_focused && index == selected;
        let background = if is_selected {
            LIGHT_BLUE
        } else if is_active {
            BLUE
        } else {
            LIGHT_GRAY
        };
        let foreground = if is_active {
            WHITE
        } else {
            BLACK
        };
        let (x, width, text_x) = tab_geometry(index);
        push_fill(&mut out, x, 0, width, HEADER_HEIGHT, background);
        push_text(&mut out, tab_label_bytes(index), text_x, 4, foreground, background);
        proof {
            assert(header_tab(index as int, active as int, selected as int, tabs_focused) =~= seq![
                fill(x, 0, width, HEADER_HEIGHT, background),
                label(tab_label(index as int), text_x, 4, foreground, background),
            ]);
            assert(drawings(out@) =~= header_tabs(index + 1, active as int, selected as int, tabs_focused));
        }
        index = index + 1;
    }
    let indicator = if tabs_focused {
        selected
    } else {
        active
    };
    let (x, width, _) = tab_geometry(indicator);
    push_fill(&mut out, x, HEADER_HEIGHT - 3, width, 3, if tabs_focused {
        ORANGE
    } else {
        DARK_GRAY
    });
    out
}

/// Message shown for a rejected expression.
pub open spec fn error_text(error: ParseError) -> Seq<u8> {
    match error {
        ParseError::InvalidCharacter => invalid_character_text(),
        ParseError::UnknownFunction => unknown_function_text(),
        ParseError::MissingClosingParenthesis => missing_close_text(),
        ParseError::MissingOpeningParenthesis => missing_open_text(),
        ParseError::ExpressionTooLong => too_long_text(),
        ParseError::BytecodeTooLarge | ParseError::OperatorStackOverflow
        | ParseError::EvaluationStackOverflow => too_complex_text(),
        ParseError::EmptyExpression => enter_expression_text(),
        ParseError::InvalidNumber => invalid_number_text(),
        ParseError::InvalidArgumentSeparator | ParseError::InvalidArgumentCount => invalid_arguments_text(),
        ParseError::MissingOperand | ParseError::MissingOperator => invalid_expression_text(),
    }
}

/// NUL-terminated message for a rejected expression.
pub fn error_message(error: ParseError) -> (text: &'static [u8])
    ensures
        text@ == error_text(error),
{
    match error {
        ParseError::InvalidCharacter => invalid_character_bytes(),
        ParseError::UnknownFunction => unknown_function_bytes(),
        ParseError::MissingClosingParenthesis => missing_close_bytes(),
        ParseError::MissingOpeningParenthesis => missing_open_bytes(),
        ParseError::ExpressionTooLong => too_long_bytes(),
        ParseError::BytecodeTooLarge | ParseError::OperatorStackOverflow
        | ParseError::EvaluationStackOverflow => too_complex_bytes(),
        ParseError::EmptyExpression => enter_expression_bytes(),
        ParseError::InvalidNumber => invalid_number_bytes(),
        ParseError::InvalidArgumentSeparator | ParseError::InvalidArgumentCount => invalid_arguments_bytes(),
        ParseError::MissingOperand | ParseError::MissingOperator => invalid_expression_bytes(),
    }
}

/// `F1(x,y) =` through `F4(x,y) =`, numbered from `function` (at most 4).
pub open spec fn function_title(function: int) -> Seq<u8> {
    let number: u8 = if function < 3 {
        (49 + function) as u8
    } else {
        52
    };
    seq![70u8, number, 40, 120, 44, 121, 41, 32, 61, 0]
}

/// A fixed field of `width` characters plus a terminator holding the first
/// characters of `visible`, padded with NULs.
pub open spec fn padded_field(visible: Seq<u8>, width: int) -> Seq<u8> {
    Seq::new(
        (width + 1) as nat,
        |i: int|
            if i < visible.len() && i < width {
                visible[i]
            } else {
                0u8
            },
    )
}

fn padded_bytes(visible: &[u8], width: usize) -> (field: Vec<u8>)
    requires
        width < 1000,
    ensures
        field@ == padded_field(visible@, width as int),
{
    let mut field: Vec<u8> = Vec::new();
    let mut i: usize = 0;
    while i < width + 1
        invariant
            i <= width + 1,
            width < 1000,
            field@ =~= padded_field(visible@, width as int).subrange(0, i as int),
        decreases width + 1 - i,
    {
        let byte = if i < visible.len() && i < width {
            visible[i]
        } else {
            0
        };
        field.push(byte);
        i = i + 1;
    }
    proof {
        assert(field@ =~= padded_field(visible@, width as int));
    }
    field
}

/// Text shown in the expression field: the scrolled window of the source.
pub open spec fn visible_window(editor: EditorModel) -> Seq<u8> {
    editor.text.subrange(
        editor.scroll as int,
        if editor.text.len() < editor.scroll + VISIBLE_CHARACTERS {
            editor.text.len() as int
        } else {
            editor.scroll + VISIBLE_CHARACTERS
        },
    )
}

/// One Toolbox entry: row background, a selection marker (orange when
/// focused), and the function name.
pub open spec fn picker_cell(column: int, row: int, editor: EditorModel, focused: bool) -> Seq<Drawing> {
    let selected = editor.picker_column == column && editor.picker_row == row;
    let x = (12 + column * 150) as u16;
    let y = (132 + row * 12) as u16;
    let background = if selected {
        FIELD_BACKGROUND
    } else {
        WHITE
    };
    let marker = if selected {
        seq![
            fill(
                x,
                (y - 1) as u16,
                3,
                11,
                if focused {
                    ORANGE
                } else {
                    DARK_GRAY
                },
            ),
        ]
    } else {
        Seq::empty()
    };
    seq![fill(x, (y - 1) as u16, 136, 11, background)] + marker + seq![
        label(
            template_name(template_at(column as u8, row as u8)).push(0u8),
            (x + 7) as u16,
            y,
            BLACK,
            background,
        ),
    ]
}

/// The first `n` Toolbox entries, column by column.
pub open spec fn picker_cells(n: int, editor: EditorModel, focused: bool) -> Seq<Drawing>
    decreases n,
{
    if n <= 0 {
        Seq::empty()
    } else {
        picker_cells(n - 1, editor, focused) + picker_cell(
            (n - 1) / (FUNCTION_PICKER_ROWS as int),
            (n - 1) % (FUNCTION_PICKER_ROWS as int),
            editor,
            focused,
        )
    }
}

/// The two-column Toolbox picker with its title and help line.
pub open spec fn picker_drawing(editor: EditorModel, focused: bool) -> Seq<Drawing> {
    seq![label(functions_text(), 12, 118, DARK_GRAY, WHITE)] + picker_cells(
        2 * FUNCTION_PICKER_ROWS,
        editor,
        focused,
    ) + seq![label(help_picker_text(), 12, 228, DARK_GRAY, WHITE)]
}

/// The Equation view: title, function name, bordered field (blue when
/// focused) with the visible source, cursor bar when focused, then the
/// picker when open, else the error or hint line and two help lines.
pub open spec fn expression_editor_drawing(editor: EditorModel, focused: bool, function: int) -> Seq<Drawing> {
    let border = if focused {
        BLUE
    } else {
        DARK_GRAY
    };
    let field = seq![
        clear_content(),
        label(equation_text(), 12, 38, DARK_GRAY, WHITE),
        label(function_title(function), 12, 61, BLACK, WHITE),
        fill(10, 82, 300, 20, FIELD_BACKGROUND),
        fill(9, 81, 302, 1, border),
        fill(9, 81, 1, 23, border),
        fill(310, 81, 1, 23, border),
        fill(9, 102, 302, 2, border),
        label(padded_field(visible_window(editor), VISIBLE_CHARACTERS as int), 12, 85, BLACK, FIELD_BACKGROUND),
    ];
    let cursor = if focused {
        seq![fill((12 + (editor.cursor - editor.scroll) * 7) as u16, 99, 6, 2, BLUE)]
    } else {
        Seq::empty()
    };
    let rest = if editor.picker_open {
        picker_drawing(editor, focused)
    } else {
        seq![
            match editor.error {
                Some(e) => label(error_text(e), 12, 121, ERROR_RED, WHITE),
                None => label(help_graph_text(), 12, 121, DARK_GRAY, WHITE),
            },
            label(help_cancel_text(), 12, 145, DARK_GRAY, WHITE),
            label(help_toolbox_text(), 12, 169, DARK_GRAY, WHITE),
        ]
    };
    field + cursor + rest
}

fn push_picker(out: &mut Vec<DrawCommand>, editor: &EquationEditor, focused: bool)
    requires
        editor@.wf(),
    ensures
        drawings(final(out)@) == drawings(old(out)@) + picker_drawing(editor@, focused),
{
    let ghost start = drawings(out@);
    push_text(out, functions_bytes(), 12, 118, DARK_GRAY, WHITE);
    let ghost head = drawings(out@);
    let mut k: usize = 0;
    while k < 2 * FUNCTION_PICKER_ROWS
        invariant
            k <= 2 * FUNCTION_PICKER_ROWS,
            editor@.wf(),
            drawings(out@) == head + picker_cells(k as int, editor@, focused),
        decreases 2 * FUNCTION_PICKER_ROWS - k,
    {
        let column = (k / FUNCTION_PICKER_ROWS) as u8;
        let row = (k % FUNCTION_PICKER_ROWS) as u8;
        let selected = editor.function_picker_column() == column && editor.function_picker_row() == row;
        let x: u16 = 12 + column as u16 * 150;
        let y: u16 = 132 + row as u16 * 12;
        let background = if selected {
            FIELD_BACKGROUND
        } else {
            WHITE
        };
        let ghost before = drawings(out@);
        push_fill(out, x, y - 1, 136, 11, background);
        if selected {
            push_fill(out, x, y - 1, 3, 11, if focused {
                ORANGE
            } else {
                DARK_GRAY
            });
        }
        let template = FunctionTemplate::from_position(column, row);
        push_text(out, template.label(), x + 7, y, BLACK, background);
        proof {
            assert(drawings(out@) =~= before + picker_cell(column as int, row as int, editor@, focused));
            assert(drawings(out@) =~= head + picker_cells(k + 1, editor@, focused));
        }
        k = k + 1;
    }
    push_text(out, help_picker_bytes(), 12, 228, DARK_GRAY, WHITE);
    proof {
        assert(drawings(out@) =~= start + picker_drawing(editor@, focused));
    }
}

/// Display list of the expression editor for function `function`.
pub fn draw_expression_editor(editor: &EquationEditor, focused: bool, function: usize) -> (commands: Vec<
    DrawCommand,
>)
    requires
        editor@.wf(),
    ensures
        drawings(commands@) == expression_editor_drawing(editor@, focused, function as int),
{
    let mut out: Vec<DrawCommand> = Vec::new();
    push_fill(&mut out, 0, HEADER_HEIGHT, 320, 216, WHITE);
    push_text(&mut out, equation_bytes(), 12, 38, DARK_GRAY, WHITE);
    let number: u8 = if function < 3 {
        49 + function as u8
    } else {
        52
    };
    let title: [u8; 10] = [70, number, 40, 120, 44, 121, 41, 32, 61, 0];
    proof {
        assert(title@ =~= function_title(function as int));
    }
    push_text(&mut out, &title, 12, 61, BLACK, WHITE);
    let border = if focused {
        BLUE
    } else {
        DARK_GRAY
    };
    push_fill(&mut out, 10, 82, 300, 20, FIELD_BACKGROUND);
    push_fill(&mut out, 9, 81, 302, 1, border);
    push_fill(&mut out, 9, 81, 1, 23, border);
    push_fill(&mut out, 310, 81, 1, 23, border);
    push_fill(&mut out, 9, 102, 302, 2, border);
    let visible = padded_bytes(editor.visible_bytes(), VISIBLE_CHARACTERS);
    push_text(&mut out, visible.as_slice(), 12, 85, BLACK, FIELD_BACKGROUND);
    let ghost field = drawings(out@);
    if focused {
        let column = (editor.cursor() - editor.scroll()) as u16;
        push_fill(&mut out, 12 + column * 7, 99, 6, 2, BLUE);
    }
    let ghost with_cursor = drawings(out@);
    if editor.function_picker_open() {
        push_picker(&mut out, editor, focused);
    } else {
        match editor.error() {
            Some(error) => push_text(&mut out, error_message(error), 12, 121, ERROR_RED, WHITE),
            None => push_text(&mut out, help_graph_bytes(), 12, 121, DARK_GRAY, WHITE),
        }
        push_text(&mut out, help_cancel_bytes(), 12, 145, DARK_GRAY, WHITE);
        push_text(&mut out, help_toolbox_bytes(), 12, 169, DARK_GRAY, WHITE);
    }
    proof {
        assert(drawings(out@) =~= expression_editor_drawing(editor@, focused, function as int));
    }
    out
}

/// Display list of the Equation view.
pub fn draw_equation_editor(editor: &EquationEditor, focused: bool) -> (commands: Vec<DrawCommand>)
    requires
        editor@.wf(),
    ensures
        drawings(commands@) == expression_editor_drawing(editor@, focused, 0),
{
    draw_expression_editor(editor, focused, 0)
}

/// A row's background (field color when selected) and, when selected, a
/// three-pixel marker at its left edge (orange when focused).
pub open spec fn row_block(x: u16, top: u16, width: u16, height: u16, selected: bool, focused: bool) -> Seq<Drawing> {
    let background = if selected {
        FIELD_BACKGROUND
    } else {
        WHITE
    };
    seq![fill(x, top, width, height, background)] + if selected {
        seq![
            fill(
                x,
                top,
                3,
                height,
                if focused {
                    ORANGE
                } else {
                    DARK_GRAY
                },
            ),
        ]
    } else {
        Seq::empty()
    }
}

fn push_row_block(
    out: &mut Vec<DrawCommand>,
    x: u16,
    top: u16,
    width: u16,
    height: u16,
    selected: bool,
    focused: bool,
)
    ensures
        drawings(final(out)@) == drawings(old(out)@) + row_block(x, top, width, height, selected, focused),
{
    let background = if selected {
        FIELD_BACKGROUND
    } else {
        WHITE
    };
    push_fill(out, x, top, width, height, background);
    if selected {
        push_fill(out, x, top, 3, height, if focused {
            ORANGE
        } else {
            DARK_GRAY
        });
    }
    proof {
        assert(drawings(out@) =~= drawings(old(out)@) + row_block(x, top, width, height, selected, focused));
    }
}

/// A one-pixel rectangle outline.
pub open spec fn border(x: u16, y: u16, width: u16, height: u16, color: u16) -> Seq<Drawing> {
    seq![
        fill(x, y, width, 1, color),
        fill(x, y, 1, height, color),
        fill((x + width - 1) as u16, y, 1, height, color),
        fill(x, (y + height - 1) as u16, width, 1, color),
    ]
}

fn push_border(out: &mut Vec<DrawCommand>, x: u16, y: u16, width: u16, height: u16, color: u16)
    requires
        1 <= width,
        1 <= height,
        x + width <= 320,
        y + height <= 240,
    ensures
        drawings(final(out)@) == drawings(old(out)@) + border(x, y, width, height, color),
{
    push_fill(out, x, y, width, 1, color);
    push_fill(out, x, y, 1, height, color);
    push_fill(out, x + width - 1, y, 1, height, color);
    push_fill(out, x, y + height - 1, width, 1, color);
    proof {
        assert(drawings(out@) =~= drawings(old(out)@) + border(x, y, width, height, color));
    }
}

/// Message shown for a rejected numeric field.
pub open spec fn numeric_error_text(error: NumericError) -> Seq<u8> {
    match error {
        NumericError::InvalidNumber => invalid_number_text(),
        NumericError::TooLong => number_too_long_text(),
        NumericError::Domain(DomainError::NonFinite) => finite_only_text(),
        NumericError::Domain(DomainError::Inverted) => inverted_text(),
        NumericError::Domain(DomainError::TooNarrow) => too_narrow_text(),
        NumericError::Domain(DomainError::TooLarge) => too_large_text(),
        NumericError::ColorOutOfRange => channel_range_text(),
    }
}

/// NUL-terminated message for a rejected numeric field.
pub fn numeric_error_message(error: NumericError) -> (text: &'static [u8])
    ensures
        text@ == numeric_error_text(error),
{
    match error {
        NumericError::InvalidNumber => invalid_number_bytes(),
        NumericError::TooLong => number_too_long_bytes(),
        NumericError::Domain(DomainError::NonFinite) => finite_only_bytes(),
        NumericError::Domain(DomainError::Inverted) => inverted_bytes(),
        NumericError::Domain(DomainError::TooNarrow) => too_narrow_bytes(),
        NumericError::Domain(DomainError::TooLarge) => too_large_bytes(),
        NumericError::ColorOutOfRange => channel_range_bytes(),
    }
}

/// `On` or `Off` with its right-aligned x position.
pub open spec fn on_off_text(value: bool) -> (Seq<u8>, u16) {
    if value {
        (on_text(), 291)
    } else {
        (off_text(), 284)
    }
}

/// `On` or `Off` with its right-aligned x position.
pub fn on_off(value: bool) -> (shown: (&'static [u8], u16))
    ensures
        (shown.0@, shown.1) == on_off_text(value),
{
    if value {
        (on_bytes(), 291)
    } else {
        (off_bytes(), 284)
    }
}

/// Name of a surface palette.
pub open spec fn palette_text(palette: SurfacePalette) -> Seq<u8> {
    match palette {
        SurfacePalette::Blue => blue_text(),
        SurfacePalette::Green => green_text(),
        SurfacePalette::Orange => orange_text(),
        SurfacePalette::Purple => purple_text(),
        SurfacePalette::Gray => gray_text(),
        SurfacePalette::Red => red_text(),
        SurfacePalette::Cyan => cyan_text(),
        SurfacePalette::Yellow => yellow_text(),
        SurfacePalette::White => white_text(),
        SurfacePalette::Custom => custom_text(),
    }
}

/// NUL-terminated name of a surface palette.
pub fn palette_name(palette: SurfacePalette) -> (text: &'static [u8])
    ensures
        text@ == palette_text(palette),
{
    match palette {
        SurfacePalette::Blue => blue_bytes(),
        SurfacePalette::Green => green_bytes(),
        SurfacePalette::Orange => orange_bytes(),
        SurfacePalette::Purple => purple_bytes(),
        SurfacePalette::Gray => gray_bytes(),
        SurfacePalette::Red => red_bytes(),
        SurfacePalette::Cyan => cyan_bytes(),
        SurfacePalette::Yellow => yellow_bytes(),
        SurfacePalette::White => white_bytes(),
        SurfacePalette::Custom => custom_bytes(),
    }
}

/// Label of a main Settings row.
pub open spec fn menu_label(item: SettingsItem) -> Seq<u8> {
    match item {
        SettingsItem::RenderingMode => rendering_text(),
        SettingsItem::GroundGrid => ground_grid_text(),
        SettingsItem::Axes => axes_text(),
        SettingsItem::Ticks => ticks_text(),
        SettingsItem::Labels => labels_text(),
        SettingsItem::Domain => domain_text(),
        SettingsItem::ResetCamera => reset_camera_text(),
        SettingsItem::Performance => performance_text(),
    }
}

fn menu_label_bytes(item: SettingsItem) -> (text: &'static [u8])
    ensures
        text@ == menu_label(item),
{
    match item {
        SettingsItem::RenderingMode => rendering_bytes(),
        SettingsItem::GroundGrid => ground_grid_bytes(),
        SettingsItem::Axes => axes_bytes(),
        SettingsItem::Ticks => ticks_bytes(),
        SettingsItem::Labels => labels_bytes(),
        SettingsItem::Domain => domain_bytes(),
        SettingsItem::ResetCamera => reset_camera_bytes(),
        SettingsItem::Performance => performance_bytes(),
    }
}

/// Value shown for a main Settings row and its x position.
pub open spec fn setting_value_text(item: SettingsItem, options: GraphOptions) -> (Seq<u8>, u16) {
    match item {
        SettingsItem::RenderingMode => match options.rendering_mode {
            RenderingMode::Wireframe => (wireframe_text(), 214),
            RenderingMode::Solid => (solid_text(), 256),
        },
        SettingsItem::GroundGrid => on_off_text(options.show_grid),
        SettingsItem::Axes => on_off_text(options.show_axes),
        SettingsItem::Ticks => on_off_text(options.show_ticks),
        SettingsItem::Labels => on_off_text(options.show_labels),
        SettingsItem::Performance => on_off_text(options.show_performance),
        SettingsItem::Domain => (exe_more_text(), 270),
        SettingsItem::ResetCamera => (exe_text(), 284),
    }
}

/// Value shown for a main Settings row and its x position.
pub fn setting_value(item: SettingsItem, options: GraphOptions) -> (shown: (&'static [u8], u16))
    ensures
        (shown.0@, shown.1) == setting_value_text(item, options),
{
    match item {
        SettingsItem::RenderingMode => match options.rendering_mode {
            RenderingMode::Wireframe => (wireframe_bytes(), 214),
            RenderingMode::Solid => (solid_bytes(), 256),
        },
        SettingsItem::GroundGrid => on_off(options.show_grid),
        SettingsItem::Axes => on_off(options.show_axes),
        SettingsItem::Ticks => on_off(options.show_ticks),
        SettingsItem::Labels => on_off(options.show_labels),
        SettingsItem::Performance => on_off(options.show_performance),
        SettingsItem::Domain => (exe_more_bytes(), 270),
        SettingsItem::ResetCamera => (exe_bytes(), 284),
    }
}

/// One main Settings row: block, label, and value (blue when selected).
pub open spec fn menu_row(row: int, settings: SettingsModel, options: GraphOptions, focused: bool) -> Seq<Drawing> {
    let top = (30 + row * 22) as u16;
    let selected = settings_item_at(row) == settings.item();
    let background = if selected {
        FIELD_BACKGROUND
    } else {
        WHITE
    };
    let value = setting_value_text(settings_item_at(row), options);
    row_block(8, top, 304, 20, selected, focused) + seq![
        label(menu_label(settings_item_at(row)), 16, (top + 2) as u16, BLACK, background),
        label(
            value.0,
            value.1,
            (top + 2) as u16,
            if selected {
                BLUE
            } else {
                DARK_GRAY
            },
            background,
        ),
    ]
}

pub open spec fn menu_rows(n: int, settings: SettingsModel, options: GraphOptions, focused: bool) -> Seq<Drawing>
    decreases n,
{
    if n <= 0 {
        Seq::empty()
    } else {
        menu_rows(n - 1, settings, options, focused) + menu_row(n - 1, settings, options, focused)
    }
}

fn push_menu(out: &mut Vec<DrawCommand>, settings: &SettingsState, options: GraphOptions, focused: bool)
    ensures
        drawings(final(out)@) == drawings(old(out)@) + menu_rows(
            SETTINGS_ITEM_COUNT as int,
            settings@,
            options,
            focused,
        ),
{
    let ghost start = drawings(out@);
    let selected_item = settings.selected_item();
    let mut row: usize = 0;
    while row < SETTINGS_ITEM_COUNT
        invariant
            row <= SETTINGS_ITEM_COUNT,
            selected_item == settings@.item(),
            drawings(out@) == start + menu_rows(row as int, settings@, options, focused),
        decreases SETTINGS_ITEM_COUNT - row,
    {
        let item = SettingsItem::from_index(row);
        let top: u16 = 30 + row as u16 * 22;
        let selected = item == selected_item;
        let background = if selected {
            FIELD_BACKGROUND
        } else {
            WHITE
        };
        let ghost before = drawings(out@);
        push_row_block(out, 8, top, 304, 20, selected, focused);
        push_text(out, menu_label_bytes(item), 16, top + 2, BLACK, background);
        let (value, x) = setting_value(item, options);
        push_text(out, value, x, top + 2, if selected {
            BLUE
        } else {
            DARK_GRAY
        }, background);
        proof {
            assert(drawings(out@) =~= before + menu_row(row as int, settings@, options, focused));
            assert(drawings(out@) =~= start + menu_rows(row + 1, settings@, options, focused));
        }
        row = row + 1;
    }
}

/// Label of an Appearance row.
pub open spec fn appearance_label(item: AppearanceItem) -> Seq<u8> {
    match item {
        AppearanceItem::Lighting => lighting_text(),
        AppearanceItem::SurfaceColor => surface_color_text(),
        AppearanceItem::Resolution => resolution_text(),
        AppearanceItem::AutoRotate => auto_rotate_text(),
    }
}

fn appearance_label_bytes(item: AppearanceItem) -> (text: &'static [u8])
    ensures
        text@ == appearance_label(item),
{
    match item {
        AppearanceItem::Lighting => lighting_bytes(),
        AppearanceItem::SurfaceColor => surface_color_bytes(),
        AppearanceItem::Resolution => resolution_bytes(),
        AppearanceItem::AutoRotate => auto_rotate_bytes(),
    }
}

/// Value shown for an Appearance row and its x position.
pub open spec fn appearance_value_text(item: AppearanceItem, options: GraphOptions, auto_rotate: bool) -> (Seq<u8>, u16) {
    match item {
        AppearanceItem::Lighting => match options.lighting {
            LightingPreset::Standard => (standard_text(), 242),
            LightingPreset::Soft => (soft_text(), 277),
            LightingPreset::Strong => (strong_text(), 263),
        },
        AppearanceItem::SurfaceColor => (palette_text(options.surface_palette), 214),
        AppearanceItem::Resolution => match options.resolution {
            ResolutionPreset::Low => (low_grid_text(), 242),
            ResolutionPreset::Standard => (standard_grid_text(), 214),
            ResolutionPreset::High => (high_grid_text(), 235),
        },
        AppearanceItem::AutoRotate => if auto_rotate {
            (on_text(), 284)
        } else {
            (off_text(), 277)
        },
    }
}

/// Value shown for an Appearance row and its x position.
pub fn appearance_value(item: AppearanceItem, options: GraphOptions, auto_rotate: bool) -> (shown: (
    &'static [u8],
    u16,
))
    ensures
        (shown.0@, shown.1) == appearance_value_text(item, options, auto_rotate),
{
    match item {
        AppearanceItem::Lighting => match options.lighting {
            LightingPreset::Standard => (standard_bytes(), 242),
            LightingPreset::Soft => (soft_bytes(), 277),
            LightingPreset::Strong => (strong_bytes(), 263),
        },
        AppearanceItem::SurfaceColor => (palette_name(options.surface_palette), 214),
        AppearanceItem::Resolution => match options.resolution {
            ResolutionPreset::Low => (low_grid_bytes(), 242),
            ResolutionPreset::Standard => (standard_grid_bytes(), 214),
            ResolutionPreset::High => (high_grid_bytes(), 235),
        },
        AppearanceItem::AutoRotate => if auto_rotate {
            (on_bytes(), 284)
        } else {
            (off_bytes(), 277)
        },
    }
}

/// One Appearance row.
pub open spec fn appearance_row(
    row: int,
    settings: SettingsModel,
    options: GraphOptions,
    focused: bool,
    auto_rotate: bool,
) -> Seq<Drawing> {
    let top = (56 + row * 29) as u16;
    let item = appearance_item_at(row);
    let selected = item == settings.appearance_item();
    let background = if selected {
        FIELD_BACKGROUND
    } else {
        WHITE
    };
    let value = appearance_value_text(item, options, auto_rotate);
    row_block(8, top, 304, 25, selected, focused) + seq![
        label(appearance_label(item), 16, (top + 7) as u16, BLACK, background),
        label(
            value.0,
            value.1,
            (top + 7) as u16,
            if selected {
                BLUE
            } else {
                DARK_GRAY
            },
            background,
        ),
    ]
}

pub open spec fn appearance_rows(
    n: int,
    settings: SettingsModel,
    options: GraphOptions,
    focused: bool,
    auto_rotate: bool,
) -> Seq<Drawing>
    decreases n,
{
    if n <= 0 {
        Seq::empty()
    } else {
        appearance_rows(n - 1, settings, options, focused, auto_rotate) + appearance_row(
            n - 1,
            settings,
            options,
            focused,
            auto_rotate,
        )
    }
}

/// The Appearance page: title, four rows, and help.
pub open spec fn appearance_drawing(
    settings: SettingsModel,
    options: GraphOptions,
    focused: bool,
    auto_rotate: bool,
) -> Seq<Drawing> {
    seq![label(solid_appearance_text(), 12, 31, DARK_GRAY, WHITE)] + appearance_rows(
        APPEARANCE_ITEM_COUNT as int,
        settings,
        options,
        focused,
        auto_rotate,
    ) + seq![label(appearance_help_text(), 12, 180, DARK_GRAY, WHITE)]
}

fn push_appearance(
    out: &mut Vec<DrawCommand>,
    settings: &SettingsState,
    options: GraphOptions,
    focused: bool,
    auto_rotate: bool,
)
    ensures
        drawings(final(out)@) == drawings(old(out)@) + appearance_drawing(
            settings@,
            options,
            focused,
            auto_rotate,
        ),
{
    let ghost start = drawings(out@);
    push_text(out, solid_appearance_bytes(), 12, 31, DARK_GRAY, WHITE);
    let ghost head = drawings(out@);
    let selected_item = settings.selected_appearance_item();
    let mut row: usize = 0;
    while row < APPEARANCE_ITEM_COUNT
        invariant
            row <= APPEARANCE_ITEM_COUNT,
            selected_item == settings@.appearance_item(),
            drawings(out@) == head + appearance_rows(row as int, settings@, options, focused, auto_rotate),
        decreases APPEARANCE_ITEM_COUNT - row,
    {
        let item = AppearanceItem::from_index(row as u8);
        let top: u16 = 56 + row as u16 * 29;
        let selected = item == selected_item;
        let background = if selected {
            FIELD_BACKGROUND
        } else {
            WHITE
        };
        let ghost before = drawings(out@);
        push_row_block(out, 8, top, 304, 25, selected, focused);
        push_text(out, appearance_label_bytes(item), 16, top + 7, BLACK, background);
        let (value, x) = appearance_value(item, options, auto_rotate);
        push_text(out, value, x, top + 7, if selected {
            BLUE
        } else {
            DARK_GRAY
        }, background);
        proof {
            assert(drawings(out@) =~= before + appearance_row(row as int, settings@, options, focused, auto_rotate));
            assert(drawings(out@) =~= head + appearance_rows(row + 1, settings@, options, focused, auto_rotate));
        }
        row = row + 1;
    }
    push_text(out, appearance_help_bytes(), 12, 180, DARK_GRAY, WHITE);
    proof {
        assert(drawings(out@) =~= start + appearance_drawing(settings@, options, focused, auto_rotate));
    }
}

/// The visible part of the numeric draft.
pub open spec fn numeric_window(settings: SettingsModel) -> Seq<u8> {
    settings.numeric.text.subrange(
        settings.numeric.scroll as int,
        if settings.numeric.text.len() < settings.numeric.scroll + NUMERIC_VISIBLE_CHARACTERS {
            settings.numeric.text.len() as int
        } else {
            settings.numeric.scroll + NUMERIC_VISIBLE_CHARACTERS
        },
    )
}

/// The active numeric draft at `(x, y)` and, when focused, its cursor bar
/// `cursor_offset` pixels lower.
pub open spec fn numeric_draft(
    settings: SettingsModel,
    x: u16,
    y: u16,
    cursor_offset: u16,
    focused: bool,
    background: u16,
) -> Seq<Drawing> {
    seq![label(padded_field(numeric_window(settings), NUMERIC_VISIBLE_CHARACTERS as int), x, y, BLACK, background)]
        + if focused {
        seq![
            fill(
                (x + (settings.numeric.cursor - settings.numeric.scroll) * SMALL_FONT_CHARACTER_WIDTH) as u16,
                (y + cursor_offset) as u16,
                6,
                2,
                BLUE,
            ),
        ]
    } else {
        Seq::empty()
    }
}

fn push_numeric_draft(
    out: &mut Vec<DrawCommand>,
    settings: &SettingsState,
    x: u16,
    y: u16,
    cursor_offset: u16,
    focused: bool,
    background: u16,
)
    requires
        settings@.wf(),
        x <= 200,
        y + cursor_offset <= 240,
    ensures
        drawings(final(out)@) == drawings(old(out)@) + numeric_draft(
            settings@,
            x,
            y,
            cursor_offset,
            focused,
            background,
        ),
{
    let visible = padded_bytes(settings.edit_visible_bytes(), NUMERIC_VISIBLE_CHARACTERS);
    push_text(out, visible.as_slice(), x, y, BLACK, background);
    if focused {
        let column = (settings.edit_cursor() - settings.edit_scroll()) as u16;
        push_fill(out, x + column * SMALL_FONT_CHARACTER_WIDTH, y + cursor_offset, 6, 2, BLUE);
    }
    proof {
        assert(drawings(out@) =~= drawings(old(out)@) + numeric_draft(
            settings@,
            x,
            y,
            cursor_offset,
            focused,
            background,
        ));
    }
}

/// Label of a Custom Color row.
pub open spec fn custom_label(item: CustomColorItem) -> Seq<u8> {
    match item {
        CustomColorItem::Red => red_text(),
        CustomColorItem::Green => green_text(),
        CustomColorItem::Blue => blue_text(),
        CustomColorItem::Apply => apply_text(),
    }
}

fn custom_label_bytes(item: CustomColorItem) -> (text: &'static [u8])
    ensures
        text@ == custom_label(item),
{
    match item {
        CustomColorItem::Red => red_bytes(),
        CustomColorItem::Green => green_bytes(),
        CustomColorItem::Blue => blue_bytes(),
        CustomColorItem::Apply => apply_bytes(),
    }
}

/// Draft channel shown on a Custom Color row.
pub open spec fn channel_of(draft: Rgb888, item: CustomColorItem) -> u8 {
    match item {
        CustomColorItem::Red => draft.red,
        CustomColorItem::Green => draft.green,
        CustomColorItem::Blue => draft.blue,
        CustomColorItem::Apply => 0,
    }
}

/// One Custom Color row: block, label, and either `EXE` (Apply) or the
/// channel field, outlined when selected, showing the draft value or, while
/// it is edited, the numeric draft.
pub open spec fn custom_row(row: int, settings: SettingsModel, focused: bool) -> Seq<Drawing> {
    let item = custom_color_item_at(row);
    let top = (52 + row * 31) as u16;
    let selected = item == settings.custom_item();
    let background = if selected {
        FIELD_BACKGROUND
    } else {
        WHITE
    };
    let head = row_block(12, top, 182, 25, selected, focused) + seq![
        label(custom_label(item), 20, (top + 4) as u16, BLACK, background),
    ];
    if item == CustomColorItem::Apply {
        head + seq![
            label(
                exe_text(),
                157,
                (top + 4) as u16,
                if selected {
                    BLUE
                } else {
                    DARK_GRAY
                },
                background,
            ),
        ]
    } else {
        let outline = if selected {
            border(
                102,
                (top + 1) as u16,
                92,
                23,
                if focused {
                    BLUE
                } else {
                    DARK_GRAY
                },
            )
        } else {
            Seq::empty()
        };
        let value = if selected && settings.editing {
            numeric_draft(settings, 107, (top + 4) as u16, 16, focused, background)
        } else {
            seq![
                label(
                    number_text_bytes(false, channel_of(settings.custom_color_draft, item) as u32, 0).push(0u8),
                    107,
                    (top + 4) as u16,
                    if selected {
                        BLUE
                    } else {
                        DARK_GRAY
                    },
                    background,
                ),
            ]
        };
        head + outline + value
    }
}

pub open spec fn custom_rows(n: int, settings: SettingsModel, focused: bool) -> Seq<Drawing>
    decreases n,
{
    if n <= 0 {
        Seq::empty()
    } else {
        custom_rows(n - 1, settings, focused) + custom_row(n - 1, settings, focused)
    }
}

/// The Custom Color page: title, preview swatch with its outline, four
/// rows, and the error or help line.
pub open spec fn custom_color_drawing(settings: SettingsModel, focused: bool) -> Seq<Drawing> {
    let message = match settings.numeric.error {
        Some(error) => label(numeric_error_text(error), 12, 181, ERROR_RED, WHITE),
        None => if settings.editing {
            label(channel_help_text(), 12, 181, DARK_GRAY, WHITE)
        } else {
            label(custom_help_text(), 12, 181, DARK_GRAY, WHITE)
        },
    };
    seq![
        label(custom_color_text(), 12, 31, DARK_GRAY, WHITE),
        label(preview_text(), 210, 31, DARK_GRAY, WHITE),
        fill(270, 31, 36, 17, spec_rgb565(
            settings.custom_color_draft.red,
            settings.custom_color_draft.green,
            settings.custom_color_draft.blue,
        ) as u16),
    ] + border(269, 30, 38, 19, DARK_GRAY) + custom_rows(
        CUSTOM_COLOR_ITEM_COUNT as int,
        settings,
        focused,
    ) + seq![message]
}

fn push_channel_value(
    out: &mut Vec<DrawCommand>,
    settings: &SettingsState,
    item: CustomColorItem,
    top: u16,
    selected: bool,
    draft: Rgb888,
    focused: bool,
)
    requires
        settings@.wf(),
        draft == settings@.custom_color_draft,
        top <= 200,
    ensures
        drawings(final(out)@) == drawings(old(out)@) + if selected && settings@.editing {
            numeric_draft(
                settings@,
                107,
                (top + 4) as u16,
                16,
                focused,
                if selected {
                    FIELD_BACKGROUND
                } else {
                    WHITE
                },
            )
        } else {
            seq![
                label(
                    number_text_bytes(false, channel_of(draft, item) as u32, 0).push(0u8),
                    107,
                    (top + 4) as u16,
                    if selected {
                        BLUE
                    } else {
                        DARK_GRAY
                    },
                    if selected {
                        FIELD_BACKGROUND
                    } else {
                        WHITE
                    },
                ),
            ]
        },
{
    let background = if selected {
        FIELD_BACKGROUND
    } else {
        WHITE
    };
    if selected && settings.is_editing() {
        push_numeric_draft(out, settings, 107, top + 4, 16, focused, background);
    } else {
        let value: u8 = match item {
            CustomColorItem::Red => draft.red,
            CustomColorItem::Green => draft.green,
            CustomColorItem::Blue => draft.blue,
            CustomColorItem::Apply => 0,
        };
        let text = NumberText::from_decimal(false, value as u32, 0);
        push_text(out, text.as_c_string(), 107, top + 4, if selected {
            BLUE
        } else {
            DARK_GRAY
        }, background);
        proof {
            assert(drawings(out@) =~= drawings(old(out)@) + seq![
                label(
                    number_text_bytes(false, channel_of(draft, item) as u32, 0).push(0u8),
                    107,
                    (top + 4) as u16,
                    if selected {
                        BLUE
                    } else {
                        DARK_GRAY
                    },
                    background,
                ),
            ]);
        }
    }
}

fn push_custom_row(
    out: &mut Vec<DrawCommand>,
    settings: &SettingsState,
    row: usize,
    selected_item: CustomColorItem,
    draft: Rgb888,
    focused: bool,
)
    requires
        row < CUSTOM_COLOR_ITEM_COUNT,
        settings@.wf(),
        draft == settings@.custom_color_draft,
        selected_item == settings@.custom_item(),
    ensures
        drawings(final(out)@) == drawings(old(out)@) + custom_row(row as int, settings@, focused),
{
    let item = CustomColorItem::from_index(row as u8);
    let top: u16 = 52 + row as u16 * 31;
    let selected = item == selected_item;
    let background = if selected {
        FIELD_BACKGROUND
    } else {
        WHITE
    };
    let ghost before = drawings(out@);
    push_row_block(out, 12, top, 182, 25, selected, focused);
    push_text(out, custom_label_bytes(item), 20, top + 4, BLACK, background);
    let ghost head = drawings(out@);
    if item == CustomColorItem::Apply {
        push_text(out, exe_bytes(), 157, top + 4, if selected {
            BLUE
        } else {
            DARK_GRAY
        }, background);
    } else {
        if selected {
            push_border(out, 102, top + 1, 92, 23, if focused {
                BLUE
            } else {
                DARK_GRAY
            });
        }
        push_channel_value(out, settings, item, top, selected, draft, focused);
    }
    proof {
        assert(drawings(out@) =~= before + custom_row(row as int, settings@, focused));
    }
}

fn push_custom_color(out: &mut Vec<DrawCommand>, settings: &SettingsState, focused: bool)
    requires
        settings@.wf(),
    ensures
        drawings(final(out)@) == drawings(old(out)@) + custom_color_drawing(settings@, focused),
{
    let ghost start = drawings(out@);
    push_text(out, custom_color_bytes(), 12, 31, DARK_GRAY, WHITE);
    push_text(out, preview_bytes(), 210, 31, DARK_GRAY, WHITE);
    let draft = settings.custom_color_draft();
    push_fill(out, 270, 31, 36, 17, draft.to_rgb565());
    push_border(out, 269, 30, 38, 19, DARK_GRAY);
    let ghost head = drawings(out@);
    let selected_item = settings.selected_custom_color_item();
    let mut row: usize = 0;
    while row < CUSTOM_COLOR_ITEM_COUNT
        invariant
            row <= CUSTOM_COLOR_ITEM_COUNT,
            settings@.wf(),
            draft == settings@.custom_color_draft,
            selected_item == settings@.custom_item(),
            drawings(out@) == head + custom_rows(row as int, settings@, focused),
        decreases CUSTOM_COLOR_ITEM_COUNT - row,
    {
        let ghost before = drawings(out@);
        push_custom_row(out, settings, row, selected_item, draft, focused);
        proof {
            assert(drawings(out@) =~= head + custom_rows(row + 1, settings@, focused));
        }
        row = row + 1;
    }
    let ghost rows = drawings(out@);
    match settings.error() {
        Some(error) => push_text(out, numeric_error_message(error), 12, 181, ERROR_RED, WHITE),
        None => if settings.is_editing() {
            push_text(out, channel_help_bytes(), 12, 181, DARK_GRAY, WHITE)
        } else {
            push_text(out, custom_help_bytes(), 12, 181, DARK_GRAY, WHITE)
        },
    }
    proof {
        assert(drawings(out@) =~= start + custom_color_drawing(settings@, focused));
    }
}

/// Label of a Domain row.
pub open spec fn domain_label(field: DomainField) -> Seq<u8> {
    match field {
        DomainField::XMin => xmin_text(),
        DomainField::XMax => xmax_text(),
        DomainField::YMin => ymin_text(),
        DomainField::YMax => ymax_text(),
    }
}

fn domain_label_bytes(field: DomainField) -> (text: &'static [u8])
    ensures
        text@ == domain_label(field),
{
    match field {
        DomainField::XMin => xmin_bytes(),
        DomainField::XMax => xmax_bytes(),
        DomainField::YMin => ymin_bytes(),
        DomainField::YMax => ymax_bytes(),
    }
}

/// One Domain row: label, field (outlined when selected) showing the
/// bound's text or, while it is edited, the numeric draft.
pub open spec fn domain_row(row: int, settings: SettingsModel, bounds: Seq<NumberText>, focused: bool) -> Seq<Drawing> {
    let top = (55 + row * 30) as u16;
    let selected = domain_field_at(row) == domain_field_at(settings.domain_index as int);
    let background = if selected {
        FIELD_BACKGROUND
    } else {
        WHITE
    };
    let outline = if selected {
        border(
            82,
            top,
            225,
            23,
            if focused {
                BLUE
            } else {
                DARK_GRAY
            },
        )
    } else {
        Seq::empty()
    };
    let value = if selected && settings.editing {
        numeric_draft(settings, 87, (top + 3) as u16, 16, focused, background)
    } else {
        seq![label(bounds[row]@.push(0u8), 87, (top + 3) as u16, BLACK, background)]
    };
    seq![
        label(domain_label(domain_field_at(row)), 16, (top + 3) as u16, BLACK, WHITE),
        fill(82, top, 225, 23, background),
    ] + outline + value
}

pub open spec fn domain_rows(n: int, settings: SettingsModel, bounds: Seq<NumberText>, focused: bool) -> Seq<Drawing>
    decreases n,
{
    if n <= 0 {
        Seq::empty()
    } else {
        domain_rows(n - 1, settings, bounds, focused) + domain_row(n - 1, settings, bounds, focused)
    }
}

/// The Domain page: title, the four bounds, and the error or help line.
pub open spec fn domain_drawing(settings: SettingsModel, bounds: Seq<NumberText>, focused: bool) -> Seq<Drawing> {
    let message = match settings.numeric.error {
        Some(error) => label(numeric_error_text(error), 12, 190, ERROR_RED, WHITE),
        None => if settings.editing {
            label(domain_edit_help_text(), 12, 190, DARK_GRAY, WHITE)
        } else {
            label(domain_help_text(), 12, 190, DARK_GRAY, WHITE)
        },
    };
    seq![label(graph_domain_text(), 12, 31, DARK_GRAY, WHITE)] + domain_rows(
        DOMAIN_FIELD_COUNT as int,
        settings,
        bounds,
        focused,
    ) + seq![message]
}

fn push_domain_row(
    out: &mut Vec<DrawCommand>,
    settings: &SettingsState,
    bounds: &[NumberText],
    row: usize,
    selected_field: DomainField,
    focused: bool,
)
    requires
        row < DOMAIN_FIELD_COUNT,
        settings@.wf(),
        bounds@.len() == DOMAIN_FIELD_COUNT,
        forall|i: int| 0 <= i < bounds@.len() ==> (#[trigger] bounds@[i]).wf(),
        selected_field == domain_field_at(settings@.domain_index as int),
    ensures
        drawings(final(out)@) == drawings(old(out)@) + domain_row(row as int, settings@, bounds@, focused),
{
    let field = DomainField::from_index(row);
    let top: u16 = 55 + row as u16 * 30;
    let selected = field == selected_field;
    let background = if selected {
        FIELD_BACKGROUND
    } else {
        WHITE
    };
    let ghost before = drawings(out@);
    push_text(out, domain_label_bytes(field), 16, top + 3, BLACK, WHITE);
    push_fill(out, 82, top, 225, 23, background);
    if selected {
        push_border(out, 82, top, 225, 23, if focused {
            BLUE
        } else {
            DARK_GRAY
        });
    }
    if selected && settings.is_editing() {
        push_numeric_draft(out, settings, 87, top + 3, 16, focused, background);
    } else {
        push_text(out, bounds[row].as_c_string(), 87, top + 3, BLACK, background);
    }
    proof {
        assert(drawings(out@) =~= before + domain_row(row as int, settings@, bounds@, focused));
    }
}

fn push_domain(out: &mut Vec<DrawCommand>, settings: &SettingsState, bounds: &[NumberText], focused: bool)
    requires
        settings@.wf(),
        bounds@.len() == DOMAIN_FIELD_COUNT,
        forall|i: int| 0 <= i < bounds@.len() ==> (#[trigger] bounds@[i]).wf(),
    ensures
        drawings(final(out)@) == drawings(old(out)@) + domain_drawing(settings@, bounds@, focused),
{
    let ghost start = drawings(out@);
    push_text(out, graph_domain_bytes(), 12, 31, DARK_GRAY, WHITE);
    let ghost head = drawings(out@);
    let selected_field = settings.selected_domain_field();
    let mut row: usize = 0;
    while row < DOMAIN_FIELD_COUNT
        invariant
            row <= DOMAIN_FIELD_COUNT,
            settings@.wf(),
            bounds@.len() == DOMAIN_FIELD_COUNT,
            forall|i: int| 0 <= i < bounds@.len() ==> (#[trigger] bounds@[i]).wf(),
            selected_field == domain_field_at(settings@.domain_index as int),
            drawings(out@) == head + domain_rows(row as int, settings@, bounds@, focused),
        decreases DOMAIN_FIELD_COUNT - row,
    {
        push_domain_row(out, settings, bounds, row, selected_field, focused);
        proof {
            assert(drawings(out@) =~= head + domain_rows(row + 1, settings@, bounds@, focused));
        }
        row = row + 1;
    }
    match settings.error() {
        Some(error) => push_text(out, numeric_error_message(error), 12, 190, ERROR_RED, WHITE),
        None => if settings.is_editing() {
            push_text(out, domain_edit_help_bytes(), 12, 190, DARK_GRAY, WHITE)
        } else {
            push_text(out, domain_help_bytes(), 12, 190, DARK_GRAY, WHITE)
        },
    }
    proof {
        assert(drawings(out@) =~= start + domain_drawing(settings@, bounds@, focused));
    }
}

/// The Settings view: the current page on a cleared content region, the
/// release version, and, when enabled, the latest render-time readout.
/// `bounds` holds the display text of the four domain bounds.
pub open spec fn settings_drawing(
    settings: SettingsModel,
    options: GraphOptions,
    bounds: Seq<NumberText>,
    focused: bool,
    graph_render_ms: u32,
    auto_rotate: bool,
) -> Seq<Drawing> {
    let page = match settings.page {
        SettingsPage::Main => menu_rows(SETTINGS_ITEM_COUNT as int, settings, options, focused),
        SettingsPage::Domain => domain_drawing(settings, bounds, focused),
        SettingsPage::Appearance => appearance_drawing(settings, options, focused, auto_rotate),
        SettingsPage::CustomColor => custom_color_drawing(settings, focused),
    };
    let performance = if options.show_performance {
        seq![label(render_performance_text(graph_render_ms), 4, 204, DARK_GRAY, WHITE)]
    } else {
        Seq::empty()
    };
    seq![clear_content()] + page + seq![
        label(APPLICATION_DISPLAY_VERSION@, 139, 218, DARK_GRAY, WHITE),
    ] + performance
}

/// Display list of the Settings view.
pub fn draw_settings(
    settings: &SettingsState,
    options: GraphOptions,
    bounds: &[NumberText],
    focused: bool,
    graph_render_ms: u32,
    auto_rotate: bool,
) -> (commands: Vec<DrawCommand>)
    requires
        settings@.wf(),
        bounds@.len() == DOMAIN_FIELD_COUNT,
        forall|i: int| 0 <= i < bounds@.len() ==> (#[trigger] bounds@[i]).wf(),
    ensures
        drawings(commands@) == settings_drawing(
            settings@,
            options,
            bounds@,
            focused,
            graph_render_ms,
            auto_rotate,
        ),
{
    let mut out: Vec<DrawCommand> = Vec::new();
    push_fill(&mut out, 0, HEADER_HEIGHT, 320, 216, WHITE);
    match settings.page() {
        SettingsPage::Main => push_menu(&mut out, settings, options, focused),
        SettingsPage::Domain => push_domain(&mut out, settings, bounds, focused),
        SettingsPage::Appearance => push_appearance(&mut out, settings, options, focused, auto_rotate),
        SettingsPage::CustomColor => push_custom_color(&mut out, settings, focused),
    }
    push_text(&mut out, &APPLICATION_DISPLAY_VERSION, 139, 218, DARK_GRAY, WHITE);
    if options.show_performance {
        let text = format_render_performance(graph_render_ms);
        push_text(&mut out, text.as_slice(), 4, 204, DARK_GRAY, WHITE);
    }
    proof {
        assert(drawings(out@) =~= settings_drawing(
            settings@,
            options,
            bounds@,
            focused,
            graph_render_ms,
            auto_rotate,
        ));
    }
    out
}

/// RGB565 swatch of a function's palette.
pub open spec fn function_rgb565(palette: SurfacePalette, custom: Rgb888) -> u16 {
    if palette.spec_index() < BUILTIN_PALETTE_COUNT {
        SOLID_SURFACE_COLORS[palette.spec_index()]
    } else {
        spec_rgb565(custom.red, custom.green, custom.blue) as u16
    }
}

/// Swatch color of a function's palette.
pub fn function_color(palette: SurfacePalette, custom: Rgb888) -> (color: Color)
    ensures
        color.rgb565 == function_rgb565(palette, custom),
{
    Color {
        rgb565: match palette.builtin_index() {
            Some(index) => SOLID_SURFACE_COLORS[index],
            None => custom.to_rgb565(),
        },
    }
}

/// Thirty-character preview of a draft (`<empty>` when there is none),
/// padded with NULs.
pub open spec fn draft_preview(draft: Seq<u8>) -> Seq<u8> {
    if draft.len() == 0 {
        padded_field(seq![60u8, 101, 109, 112, 116, 121, 62], 30)
    } else {
        padded_field(draft, 30)
    }
}

/// `F1` through `F4` for `index < 4`.
pub open spec fn function_name(index: int) -> Seq<u8> {
    seq![70u8, (49 + index) as u8, 0]
}

/// One row of the function list: block, name, On/Off, color swatch, and
/// the draft preview (red when it differs from the compiled program).
pub open spec fn function_row(index: int, slots: Seq<FunctionSlot>, selected: int, focused: bool) -> Seq<Drawing> {
    let top = (52 + index * 34) as u16;
    let is_selected = index == selected;
    let background = if is_selected {
        FIELD_BACKGROUND
    } else {
        WHITE
    };
    let slot = slots[index];
    row_block(8, top, 304, 28, is_selected, focused) + seq![
        label(function_name(index), 16, (top + 5) as u16, BLACK, background),
        label(
            if slot.enabled {
                on_text()
            } else {
                off_text()
            },
            42,
            (top + 5) as u16,
            if slot.enabled {
                BLUE
            } else {
                DARK_GRAY
            },
            background,
        ),
        fill(72, (top + 7) as u16, 12, 12, function_rgb565(slot.palette, slot.custom_rgb)),
        label(
            draft_preview(slot.draft_text()),
            92,
            (top + 5) as u16,
            if slot.draft_matches_compiled {
                BLACK
            } else {
                ERROR_RED
            },
            background,
        ),
    ]
}

pub open spec fn function_rows(n: int, slots: Seq<FunctionSlot>, selected: int, focused: bool) -> Seq<Drawing>
    decreases n,
{
    if n <= 0 {
        Seq::empty()
    } else {
        function_rows(n - 1, slots, selected, focused) + function_row(n - 1, slots, selected, focused)
    }
}

/// The function list: title, one row per function, and help.
pub open spec fn function_list_drawing(slots: Seq<FunctionSlot>, selected: int, focused: bool) -> Seq<Drawing> {
    seq![clear_content(), label(functions_text(), 12, 31, DARK_GRAY, WHITE)] + function_rows(
        MAX_FUNCTIONS as int,
        slots,
        selected,
        focused,
    ) + seq![label(function_list_help_text(), 12, 198, DARK_GRAY, WHITE)]
}

fn draft_preview_bytes(draft: &[u8]) -> (preview: Vec<u8>)
    ensures
        preview@ == draft_preview(draft@),
{
    if draft.len() == 0 {
        let empty: [u8; 7] = [60, 101, 109, 112, 116, 121, 62];
        proof {
            assert(empty@ =~= seq![60u8, 101, 109, 112, 116, 121, 62]);
        }
        padded_bytes(&empty, 30)
    } else {
        padded_bytes(draft, 30)
    }
}

fn push_function_row(
    out: &mut Vec<DrawCommand>,
    functions: &FunctionSet,
    index: usize,
    selected: usize,
    focused: bool,
)
    requires
        index < MAX_FUNCTIONS,
        functions.slots@.len() == MAX_FUNCTIONS,
    ensures
        drawings(final(out)@) == drawings(old(out)@) + function_row(
            index as int,
            functions.slots@,
            selected as int,
            focused,
        ),
{
    let top: u16 = 52 + index as u16 * 34;
    let is_selected = index == selected;
    let background = if is_selected {
        FIELD_BACKGROUND
    } else {
        WHITE
    };
    let slot = &functions.slots[index];
    let ghost before = drawings(out@);
    push_row_block(out, 8, top, 304, 28, is_selected, focused);
    let name: [u8; 3] = [70, 49 + index as u8, 0];
    proof {
        assert(name@ =~= function_name(index as int));
    }
    push_text(out, &name, 16, top + 5, BLACK, background);
    if slot.enabled {
        push_text(out, on_bytes(), 42, top + 5, BLUE, background);
    } else {
        push_text(out, off_bytes(), 42, top + 5, DARK_GRAY, background);
    }
    push_fill(out, 72, top + 7, 12, 12, function_color(slot.palette, slot.custom_rgb).rgb565);
    let preview = draft_preview_bytes(slot.draft());
    push_text(out, preview.as_slice(), 92, top + 5, if slot.draft_matches_compiled {
        BLACK
    } else {
        ERROR_RED
    }, background);
    proof {
        assert(drawings(out@) =~= before + function_row(
            index as int,
            functions.slots@,
            selected as int,
            focused,
        ));
    }
}

/// Display list of the function list with `selected` highlighted.
pub fn draw_function_list(functions: &FunctionSet, selected: usize, focused: bool) -> (commands: Vec<
    DrawCommand,
>)
    requires
        functions.slots@.len() == MAX_FUNCTIONS,
    ensures
        drawings(commands@) == function_list_drawing(functions.slots@, selected as int, focused),
{
    let mut out: Vec<DrawCommand> = Vec::new();
    push_fill(&mut out, 0, HEADER_HEIGHT, 320, 216, WHITE);
    push_text(&mut out, functions_bytes(), 12, 31, DARK_GRAY, WHITE);
    let ghost head = drawings(out@);
    let mut index: usize = 0;
    while index < MAX_FUNCTIONS
        invariant
            index <= MAX_FUNCTIONS,
            functions.slots@.len() == MAX_FUNCTIONS,
            drawings(out@) == head + function_rows(index as int, functions.slots@, selected as int, focused),
        decreases MAX_FUNCTIONS - index,
    {
        push_function_row(&mut out, functions, index, selected, focused);
        proof {
            assert(drawings(out@) =~= head + function_rows(index + 1, functions.slots@, selected as int, focused));
        }
        index = index + 1;
    }
    push_text(&mut out, function_list_help_bytes(), 12, 198, DARK_GRAY, WHITE);
    proof {
        assert(drawings(out@) =~= function_list_drawing(functions.slots@, selected as int, focused));
    }
    out
}

/// `F1 settings` through `F4 settings`.
pub open spec fn detail_title(index: int) -> Seq<u8> {
    seq![70u8, (49 + index) as u8, 32, 115, 101, 116, 116, 105, 110, 103, 115, 0]
}

/// Label of a function-detail row.
pub open spec fn detail_label(row: int) -> Seq<u8> {
    if row == 0 {
        enabled_text()
    } else if row == 1 {
        expression_text()
    } else {
        color_text()
    }
}

/// One function-detail row: Enabled (On/Off), Expression (`EXE >`), or
/// Color (palette name and swatch).
pub open spec fn detail_row(row: int, slot: FunctionSlot, detail_row: int, focused: bool) -> Seq<Drawing> {
    let top = (62 + row * 38) as u16;
    let selected = row == detail_row;
    let background = if selected {
        FIELD_BACKGROUND
    } else {
        WHITE
    };
    let value = if row == 0 {
        seq![
            label(
                if slot.enabled {
                    on_text()
                } else {
                    off_text()
                },
                270,
                (top + 7) as u16,
                BLUE,
                background,
            ),
        ]
    } else if row == 1 {
        seq![label(exe_more_text(), 260, (top + 7) as u16, BLUE, background)]
    } else {
        seq![
            label(palette_text(slot.palette), 214, (top + 7) as u16, BLUE, background),
            fill(291, (top + 8) as u16, 14, 14, function_rgb565(slot.palette, slot.custom_rgb)),
        ]
    };
    row_block(8, top, 304, 31, selected, focused) + seq![
        label(detail_label(row), 16, (top + 7) as u16, BLACK, background),
    ] + value
}

pub open spec fn detail_rows(n: int, slot: FunctionSlot, detail_row_index: int, focused: bool) -> Seq<Drawing>
    decreases n,
{
    if n <= 0 {
        Seq::empty()
    } else {
        detail_rows(n - 1, slot, detail_row_index, focused) + detail_row(n - 1, slot, detail_row_index, focused)
    }
}

/// The settings of function `index`: title, three rows, and a warning when
/// its draft has not been applied.
pub open spec fn function_detail_drawing(slot: FunctionSlot, index: int, detail_row_index: int, focused: bool) -> Seq<Drawing> {
    seq![clear_content(), label(detail_title(index), 12, 31, DARK_GRAY, WHITE)] + detail_rows(
        3,
        slot,
        detail_row_index,
        focused,
    ) + if !slot.draft_matches_compiled {
        seq![label(draft_not_applied_text(), 12, 184, ERROR_RED, WHITE)]
    } else {
        Seq::empty()
    }
}

fn detail_label_bytes(row: usize) -> (text: &'static [u8])
    ensures
        text@ == detail_label(row as int),
{
    if row == 0 {
        enabled_bytes()
    } else if row == 1 {
        expression_bytes()
    } else {
        color_bytes()
    }
}

fn push_detail_row(out: &mut Vec<DrawCommand>, slot: &FunctionSlot, row: usize, detail_row_index: usize, focused: bool)
    requires
        row < 3,
    ensures
        drawings(final(out)@) == drawings(old(out)@) + detail_row(
            row as int,
            *slot,
            detail_row_index as int,
            focused,
        ),
{
    let top: u16 = 62 + row as u16 * 38;
    let selected = row == detail_row_index;
    let background = if selected {
        FIELD_BACKGROUND
    } else {
        WHITE
    };
    let ghost before = drawings(out@);
    push_row_block(out, 8, top, 304, 31, selected, focused);
    push_text(out, detail_label_bytes(row), 16, top + 7, BLACK, background);
    if row == 0 {
        push_text(out, if slot.enabled {
            on_bytes()
        } else {
            off_bytes()
        }, 270, top + 7, BLUE, background);
    } else if row == 1 {
        push_text(out, exe_more_bytes(), 260, top + 7, BLUE, background);
    } else {
        push_text(out, palette_name(slot.palette), 214, top + 7, BLUE, background);
        push_fill(out, 291, top + 8, 14, 14, function_color(slot.palette, slot.custom_rgb).rgb565);
    }
    proof {
        assert(drawings(out@) =~= before + detail_row(row as int, *slot, detail_row_index as int, focused));
    }
}

/// Display list of the settings of function `index` (`index < 4`).
pub fn draw_function_detail(functions: &FunctionSet, index: usize, detail_row_index: usize, focused: bool) -> (commands: Vec<DrawCommand>)
    requires
        functions.slots@.len() == MAX_FUNCTIONS,
        index < MAX_FUNCTIONS,
    ensures
        drawings(commands@) == function_detail_drawing(
            functions.slots@[index as int],
            index as int,
            detail_row_index as int,
            focused,
        ),
{
    let mut out: Vec<DrawCommand> = Vec::new();
    push_fill(&mut out, 0, HEADER_HEIGHT, 320, 216, WHITE);
    let title: [u8; 12] = [70, 49 + index as u8, 32, 115, 101, 116, 116, 105, 110, 103, 115, 0];
    proof {
        assert(title@ =~= detail_title(index as int));
    }
    push_text(&mut out, &title, 12, 31, DARK_GRAY, WHITE);
    let slot = &functions.slots[index];
    let ghost head = drawings(out@);
    let mut row: usize = 0;
    while row < 3
        invariant
            row <= 3,
            drawings(out@) == head + detail_rows(row as int, *slot, detail_row_index as int, focused),
        decreases 3 - row,
    {
        push_detail_row(&mut out, slot, row, detail_row_index, focused);
        proof {
            assert(drawings(out@) =~= head + detail_rows(row + 1, *slot, detail_row_index as int, focused));
        }
        row = row + 1;
    }
    if !slot.draft_matches_compiled {
        push_text(&mut out, draft_not_applied_bytes(), 12, 184, ERROR_RED, WHITE);
    }
    proof {
        assert(drawings(out@) =~= function_detail_drawing(
            functions.slots@[index as int],
            index as int,
            detail_row_index as int,
            focused,
        ));
    }
    out
}

/// One row of a function's Custom Color page: block, channel name, and the
/// channel value (or its numeric draft while edited); the Apply row has no
/// value.
pub open spec fn function_custom_row(
    row: int,
    draft: Rgb888,
    custom_row: int,
    editing_text: Option<Seq<u8>>,
    focused: bool,
) -> Seq<Drawing> {
    let top = (54 + row * 34) as u16;
    let selected = row == custom_row;
    let background = if selected {
        FIELD_BACKGROUND
    } else {
        WHITE
    };
    let item = custom_color_item_at(row);
    let value = if row < 3 {
        match editing_text {
            Some(text) if selected => seq![
                label(padded_field(text, NUMERIC_VISIBLE_CHARACTERS as int), 140, (top + 5) as u16, BLUE, background),
            ],
            _ => seq![
                label(
                    number_text_bytes(false, channel_of(draft, item) as u32, 0).push(0u8),
                    140,
                    (top + 5) as u16,
                    BLUE,
                    background,
                ),
            ],
        }
    } else {
        Seq::empty()
    };
    row_block(8, top, 190, 28, selected, focused) + seq![
        label(custom_label(item), 16, (top + 5) as u16, BLACK, background),
    ] + value
}

pub open spec fn function_custom_rows(
    n: int,
    draft: Rgb888,
    custom_row: int,
    editing_text: Option<Seq<u8>>,
    focused: bool,
) -> Seq<Drawing>
    decreases n,
{
    if n <= 0 {
        Seq::empty()
    } else {
        function_custom_rows(n - 1, draft, custom_row, editing_text, focused) + function_custom_row(
            n - 1,
            draft,
            custom_row,
            editing_text,
            focused,
        )
    }
}

/// A function's Custom Color page: title, four rows, preview swatch, and a
/// range hint after a rejected channel value. `editing_text` is the visible
/// numeric draft while the selected channel is being edited.
pub open spec fn function_custom_color_drawing(
    draft: Rgb888,
    custom_row: int,
    editing_text: Option<Seq<u8>>,
    error: bool,
    focused: bool,
) -> Seq<Drawing> {
    seq![clear_content(), label(custom_color_text(), 12, 31, DARK_GRAY, WHITE)] + function_custom_rows(
        4,
        draft,
        custom_row,
        editing_text,
        focused,
    ) + seq![fill(230, 70, 60, 60, spec_rgb565(draft.red, draft.green, draft.blue) as u16)]
        + if error {
        seq![label(enter_channel_text(), 12, 198, ERROR_RED, WHITE)]
    } else {
        Seq::empty()
    }
}

fn push_function_custom_row(
    out: &mut Vec<DrawCommand>,
    row: usize,
    draft: Rgb888,
    custom_row: usize,
    editing_text: Option<&[u8]>,
    focused: bool,
)
    requires
        row < 4,
    ensures
        drawings(final(out)@) == drawings(old(out)@) + function_custom_row(
            row as int,
            draft,
            custom_row as int,
            match editing_text {
                Some(text) => Some(text@),
                None => None,
            },
            focused,
        ),
{
    let top: u16 = 54 + row as u16 * 34;
    let selected = row == custom_row;
    let background = if selected {
        FIELD_BACKGROUND
    } else {
        WHITE
    };
    let item = CustomColorItem::from_index(row as u8);
    let ghost before = drawings(out@);
    push_row_block(out, 8, top, 190, 28, selected, focused);
    push_text(out, custom_label_bytes(item), 16, top + 5, BLACK, background);
    if row < 3 {
        match editing_text {
            Some(text) if selected => {
                let field = padded_bytes(text, NUMERIC_VISIBLE_CHARACTERS);
                push_text(out, field.as_slice(), 140, top + 5, BLUE, background);
            },
            _ => {
                let value: u8 = match item {
                    CustomColorItem::Red => draft.red,
                    CustomColorItem::Green => draft.green,
                    CustomColorItem::Blue => draft.blue,
                    CustomColorItem::Apply => 0,
                };
                let number = NumberText::from_decimal(false, value as u32, 0);
                push_text(out, number.as_c_string(), 140, top + 5, BLUE, background);
            },
        }
    }
    proof {
        assert(drawings(out@) =~= before + function_custom_row(
            row as int,
            draft,
            custom_row as int,
            match editing_text {
                Some(text) => Some(text@),
                None => None,
            },
            focused,
        ));
    }
}

/// Display list of a function's Custom Color page.
pub fn draw_function_custom_color(
    draft: Rgb888,
    custom_row: usize,
    editing_text: Option<&[u8]>,
    error: bool,
    focused: bool,
) -> (commands: Vec<DrawCommand>)
    ensures
        drawings(commands@) == function_custom_color_drawing(
            draft,
            custom_row as int,
            match editing_text {
                Some(text) => Some(text@),
                None => None,
            },
            error,
            focused,
        ),
{
    let ghost shown = match editing_text {
        Some(text) => Some(text@),
        None => None,
    };
    let mut out: Vec<DrawCommand> = Vec::new();
    push_fill(&mut out, 0, HEADER_HEIGHT, 320, 216, WHITE);
    push_text(&mut out, custom_color_bytes(), 12, 31, DARK_GRAY, WHITE);
    let ghost head = drawings(out@);
    let mut row: usize = 0;
    while row < 4
        invariant
            row <= 4,
            shown == match editing_text {
                Some(text) => Some(text@),
                None => None,
            },
            drawings(out@) == head + function_custom_rows(row as int, draft, custom_row as int, shown, focused),
        decreases 4 - row,
    {
        push_function_custom_row(&mut out, row, draft, custom_row, editing_text, focused);
        proof {
            assert(drawings(out@) =~= head + function_custom_rows(row + 1, draft, custom_row as int, shown, focused));
        }
        row = row + 1;
    }
    push_fill(&mut out, 230, 70, 60, 60, draft.to_rgb565());
    if error {
        push_text(&mut out, enter_channel_bytes(), 12, 198, ERROR_RED, WHITE);
    }
    proof {
        assert(drawings(out@) =~= function_custom_color_drawing(draft, custom_row as int, shown, error, focused));
    }
    out
}

/// `F1/F2` and so on for pair `pair`.
pub open spec fn pair_name(pair: int) -> Seq<u8> {
    let members = spec_function_pair(pair);
    seq![70u8, (49 + members.0) as u8, 47, 70, (49 + members.1) as u8, 0]
}

/// A function takes part in intersections when it is enabled and compiled.
pub open spec fn function_shown(slots: Seq<FunctionSlot>, index: int) -> bool {
    slots[index].enabled && slots[index].compiled is Some
}

/// Count column of a pair row: `Disabled` unless both functions are shown,
/// nothing before the pair is rebuilt, `None` for no segments, else the
/// count with `+` when segments were left out.
pub open spec fn pair_status(pair: int, slots: Seq<FunctionSlot>, cache: CacheModel, top: u16, background: u16) -> Seq<Drawing> {
    let members = spec_function_pair(pair);
    if !(function_shown(slots, members.0 as int) && function_shown(slots, members.1 as int)) {
        seq![label(disabled_text(), 218, (top + 2) as u16, DARK_GRAY, background)]
    } else {
        match cache.pair(pair as usize) {
            None => Seq::empty(),
            Some(data) => if data.total == 0 {
                seq![label(none_text(), 270, (top + 2) as u16, DARK_GRAY, background)]
            } else {
                seq![
                    label(
                        number_text_bytes(false, data.total as u32, 0).push(0u8),
                        270,
                        (top + 2) as u16,
                        DARK_GRAY,
                        background,
                    ),
                ] + if data.truncated {
                    seq![label(plus_text(), 301, (top + 2) as u16, DARK_GRAY, background)]
                } else {
                    Seq::empty()
                }
            },
        }
    }
}

/// One pair row: block, pair name, visibility, and status.
pub open spec fn pair_row(pair: int, slots: Seq<FunctionSlot>, cache: CacheModel, selected: int, focused: bool) -> Seq<Drawing> {
    let top = (49 + pair * 25) as u16;
    let is_selected = pair == selected;
    let background = if is_selected {
        FIELD_BACKGROUND
    } else {
        WHITE
    };
    row_block(8, top, 304, 22, is_selected, focused) + seq![
        label(pair_name(pair), 16, (top + 2) as u16, BLACK, background),
        label(
            if has_bit(cache.visibility_mask, pair as usize) {
                on_text()
            } else {
                off_text()
            },
            90,
            (top + 2) as u16,
            BLUE,
            background,
        ),
    ] + pair_status(pair, slots, cache, top, background)
}

pub open spec fn pair_rows(n: int, slots: Seq<FunctionSlot>, cache: CacheModel, selected: int, focused: bool) -> Seq<Drawing>
    decreases n,
{
    if n <= 0 {
        Seq::empty()
    } else {
        pair_rows(n - 1, slots, cache, selected, focused) + pair_row(n - 1, slots, cache, selected, focused)
    }
}

/// Coordinates of the selected pair's representative point, shown when both
/// of its functions are shown and a point exists.
pub open spec fn representative_line(slots: Seq<FunctionSlot>, selected: int, representative: Option<Seq<NumberText>>) -> Seq<Drawing> {
    let members = spec_function_pair(if selected < 5 {
        selected
    } else {
        5
    });
    if function_shown(slots, members.0 as int) && function_shown(slots, members.1 as int) {
        match representative {
            Some(texts) => seq![
                label(x_name_text(), 12, 204, DARK_GRAY, WHITE),
                label(texts[0]@.push(0u8), 25, 204, BLACK, WHITE),
                label(y_name_text(), 112, 204, DARK_GRAY, WHITE),
                label(texts[1]@.push(0u8), 125, 204, BLACK, WHITE),
                label(z_name_text(), 212, 204, DARK_GRAY, WHITE),
                label(texts[2]@.push(0u8), 225, 204, BLACK, WHITE),
            ],
            None => Seq::empty(),
        }
    } else {
        Seq::empty()
    }
}

/// The intersection list: title, one row per pair, and the representative
/// point of the selected pair. `representative` holds the display text of
/// its x, y and z when the pair has one.
pub open spec fn intersection_list_drawing(
    slots: Seq<FunctionSlot>,
    cache: CacheModel,
    selected: int,
    representative: Option<Seq<NumberText>>,
    focused: bool,
) -> Seq<Drawing> {
    seq![clear_content(), label(intersections_text(), 12, 29, DARK_GRAY, WHITE)] + pair_rows(
        MAX_FUNCTION_PAIRS as int,
        slots,
        cache,
        selected,
        focused,
    ) + representative_line(slots, selected, representative)
}

fn is_shown(functions: &FunctionSet, index: usize) -> (shown: bool)
    requires
        index < functions.slots@.len(),
    ensures
        shown == function_shown(functions.slots@, index as int),
{
    functions.slots[index].enabled && functions.slots[index].compiled.is_some()
}

fn push_pair_status(
    out: &mut Vec<DrawCommand>,
    pair: usize,
    functions: &FunctionSet,
    intersections: &IntersectionCache,
    top: u16,
    background: u16,
)
    requires
        pair < MAX_FUNCTION_PAIRS,
        top <= 200,
        functions.slots@.len() == MAX_FUNCTIONS,
        intersections@.wf(),
    ensures
        drawings(final(out)@) == drawings(old(out)@) + pair_status(
            pair as int,
            functions.slots@,
            intersections@,
            top,
            background,
        ),
{
    let members = function_pair(pair);
    if !(is_shown(functions, members.0) && is_shown(functions, members.1)) {
        push_text(out, disabled_bytes(), 218, top + 2, DARK_GRAY, background);
    } else {
        match intersections.pair(pair) {
            None => {},
            Some(data) => {
                if data.total() == 0 {
                    push_text(out, none_bytes(), 270, top + 2, DARK_GRAY, background);
                } else {
                    let number = NumberText::from_decimal(false, data.total() as u32, 0);
                    push_text(out, number.as_c_string(), 270, top + 2, DARK_GRAY, background);
                    if data.truncated() {
                        push_text(out, plus_bytes(), 301, top + 2, DARK_GRAY, background);
                    }
                }
            },
        }
    }
    proof {
        assert(drawings(out@) =~= drawings(old(out)@) + pair_status(
            pair as int,
            functions.slots@,
            intersections@,
            top,
            background,
        ));
    }
}

fn push_pair_row(
    out: &mut Vec<DrawCommand>,
    pair: usize,
    functions: &FunctionSet,
    intersections: &IntersectionCache,
    selected: usize,
    focused: bool,
)
    requires
        pair < MAX_FUNCTION_PAIRS,
        functions.slots@.len() == MAX_FUNCTIONS,
        intersections@.wf(),
    ensures
        drawings(final(out)@) == drawings(old(out)@) + pair_row(
            pair as int,
            functions.slots@,
            intersections@,
            selected as int,
            focused,
        ),
{
    let top: u16 = 49 + pair as u16 * 25;
    let is_selected = pair == selected;
    let background = if is_selected {
        FIELD_BACKGROUND
    } else {
        WHITE
    };
    let ghost before = drawings(out@);
    push_row_block(out, 8, top, 304, 22, is_selected, focused);
    let members = function_pair(pair);
    let name: [u8; 6] = [70, 49 + members.0 as u8, 47, 70, 49 + members.1 as u8, 0];
    proof {
        assert(name@ =~= pair_name(pair as int));
    }
    push_text(out, &name, 16, top + 2, BLACK, background);
    let visible = intersections.visibility_mask() & (1u8 << pair) != 0;
    push_text(out, if visible {
        on_bytes()
    } else {
        off_bytes()
    }, 90, top + 2, BLUE, background);
    push_pair_status(out, pair, functions, intersections, top, background);
    proof {
        assert(drawings(out@) =~= before + pair_row(
            pair as int,
            functions.slots@,
            intersections@,
            selected as int,
            focused,
        ));
    }
}

/// Display list of the intersection list with pair `selected` highlighted.
pub fn draw_intersection_list(
    functions: &FunctionSet,
    intersections: &IntersectionCache,
    selected: usize,
    representative: Option<&[NumberText]>,
    focused: bool,
) -> (commands: Vec<DrawCommand>)
    requires
        functions.slots@.len() == MAX_FUNCTIONS,
        intersections@.wf(),
        representative matches Some(texts) ==> texts@.len() == 3 && forall|i: int|
            0 <= i < 3 ==> (#[trigger] texts@[i]).wf(),
    ensures
        drawings(commands@) == intersection_list_drawing(
            functions.slots@,
            intersections@,
            selected as int,
            match representative {
                Some(texts) => Some(texts@),
                None => None,
            },
            focused,
        ),
{
    let mut out: Vec<DrawCommand> = Vec::new();
    push_fill(&mut out, 0, HEADER_HEIGHT, 320, 216, WHITE);
    push_text(&mut out, intersections_bytes(), 12, 29, DARK_GRAY, WHITE);
    let ghost head = drawings(out@);
    let mut pair: usize = 0;
    while pair < MAX_FUNCTION_PAIRS
        invariant
            pair <= MAX_FUNCTION_PAIRS,
            functions.slots@.len() == MAX_FUNCTIONS,
            intersections@.wf(),
            drawings(out@) == head + pair_rows(
                pair as int,
                functions.slots@,
                intersections@,
                selected as int,
                focused,
            ),
        decreases MAX_FUNCTION_PAIRS - pair,
    {
        push_pair_row(&mut out, pair, functions, intersections, selected, focused);
        proof {
            assert(drawings(out@) =~= head + pair_rows(
                pair + 1,
                functions.slots@,
                intersections@,
                selected as int,
                focused,
            ));
        }
        pair = pair + 1;
    }
    let ghost rows = drawings(out@);
    let members = function_pair(if selected < 5 {
        selected
    } else {
        5
    });
    if is_shown(functions, members.0) && is_shown(functions, members.1) {
        if let Some(texts) = representative {
            push_text(&mut out, x_name_bytes(), 12, 204, DARK_GRAY, WHITE);
            push_text(&mut out, texts[0].as_c_string(), 25, 204, BLACK, WHITE);
            push_text(&mut out, y_name_bytes(), 112, 204, DARK_GRAY, WHITE);
            push_text(&mut out, texts[1].as_c_string(), 125, 204, BLACK, WHITE);
            push_text(&mut out, z_name_bytes(), 212, 204, DARK_GRAY, WHITE);
            push_text(&mut out, texts[2].as_c_string(), 225, 204, BLACK, WHITE);
        }
    }
    proof {
        assert(drawings(out@) =~= intersection_list_drawing(
            functions.slots@,
            intersections@,
            selected as int,
            match representative {
                Some(texts) => Some(texts@),
                None => None,
            },
            focused,
        ));
    }
    out
}

} // verus!
