use grapher3d::expression::ParseError;
use grapher3d::functions::FunctionSet;
use grapher3d::graph::{GraphOptions, SurfacePalette};
use grapher3d::keys::{Point, Rect};
use grapher3d::settings::{NumberText, SettingsState};
use grapher3d::ui::{
    draw_function_list, draw_header, draw_settings, error_message, on_off, palette_name,
    DrawCommand, APPLICATION_DISPLAY_VERSION, BLUE, DARK_GRAY, LIGHT_BLUE, LIGHT_GRAY, ORANGE,
    WHITE,
};

fn fill_of(command: &DrawCommand) -> (Rect, u16) {
    match command {
        DrawCommand::Fill { rect, color } => (*rect, color.rgb565),
        DrawCommand::Text { .. } => panic!("expected a fill"),
    }
}

fn text_of(command: &DrawCommand) -> (Vec<u8>, Point, u16, u16) {
    match command {
        DrawCommand::Text { text, at, foreground, background } => {
            let end = text.iter().position(|&b| b == 0).unwrap_or(text.len());
            (text[..end].to_vec(), *at, foreground.rgb565, background.rgb565)
        }
        DrawCommand::Fill { .. } => panic!("expected text"),
    }
}

fn rect(x: u16, y: u16, width: u16, height: u16) -> Rect {
    Rect { x, y, width, height }
}

#[test]
fn header_marks_the_active_tab_and_its_indicator() {
    let commands = draw_header(0, 0, false);
    assert_eq!(commands.len(), 7);
    assert_eq!(fill_of(&commands[0]), (rect(0, 0, 106, 24), BLUE));
    assert_eq!(text_of(&commands[1]), (b"Graph".to_vec(), Point { x: 31, y: 4 }, WHITE, BLUE));
    assert_eq!(fill_of(&commands[2]), (rect(106, 0, 107, 24), LIGHT_GRAY));
    assert_eq!(text_of(&commands[3]).0, b"Equation".to_vec());
    assert_eq!(text_of(&commands[5]).0, b"Settings".to_vec());
    assert_eq!(fill_of(&commands[6]), (rect(0, 21, 106, 3), DARK_GRAY));
}

#[test]
fn focused_header_highlights_the_selection_in_orange() {
    let commands = draw_header(0, 2, true);
    assert_eq!(fill_of(&commands[0]), (rect(0, 0, 106, 24), BLUE));
    assert_eq!(fill_of(&commands[4]), (rect(213, 0, 107, 24), LIGHT_BLUE));
    assert_eq!(fill_of(&commands[6]), (rect(213, 21, 107, 3), ORANGE));
}

#[test]
fn messages_name_each_error() {
    assert!(error_message(ParseError::UnknownFunction).starts_with(b"Unknown function"));
    assert!(error_message(ParseError::EmptyExpression).starts_with(b"Enter an expression"));
    assert!(error_message(ParseError::OperatorStackOverflow).starts_with(b"Expression too complex"));
    assert!(palette_name(SurfacePalette::Custom).starts_with(b"Custom"));
    let (on, on_x) = on_off(true);
    let (off, off_x) = on_off(false);
    assert!(on.starts_with(b"On") && on_x == 291);
    assert!(off.starts_with(b"Off") && off_x == 284);
}

#[test]
fn settings_page_is_framed_by_background_and_version() {
    let settings = SettingsState::new();
    let bounds = [
        NumberText::from_decimal(true, 3, 141_593),
        NumberText::from_decimal(false, 3, 141_593),
        NumberText::from_decimal(true, 3, 141_593),
        NumberText::from_decimal(false, 3, 141_593),
    ];
    let commands = draw_settings(&settings, GraphOptions::default(), &bounds, true, 0, false);
    assert_eq!(fill_of(&commands[0]), (rect(0, 24, 320, 216), WHITE));
    let (text, at, foreground, background) = text_of(commands.last().unwrap());
    let version_end = APPLICATION_DISPLAY_VERSION.iter().position(|&b| b == 0).unwrap();
    assert_eq!(text, APPLICATION_DISPLAY_VERSION[..version_end].to_vec());
    assert_eq!((at, foreground, background), (Point { x: 139, y: 218 }, DARK_GRAY, WHITE));
}

#[test]
fn function_list_starts_with_its_title() {
    let functions = FunctionSet::new();
    let commands = draw_function_list(&functions, 0, true);
    assert_eq!(fill_of(&commands[0]), (rect(0, 24, 320, 216), WHITE));
    assert_eq!(
        text_of(&commands[1]),
        (b"Functions".to_vec(), Point { x: 12, y: 31 }, DARK_GRAY, WHITE)
    );
}

#[test]
fn focused_header_needs_no_active_tab() {
    let commands = draw_header(7, 1, true);
    assert_eq!(commands.len(), 7);
    assert_eq!(fill_of(&commands[0]), (rect(0, 0, 106, 24), LIGHT_GRAY));
    assert_eq!(fill_of(&commands[2]), (rect(106, 0, 107, 24), LIGHT_BLUE));
    assert_eq!(fill_of(&commands[6]), (rect(106, 21, 107, 3), ORANGE));
}
