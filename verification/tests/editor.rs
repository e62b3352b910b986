use grapher3d::editor::{
    EditorAction, EditorKeyRepeat, EquationEditor, FunctionTemplate, FUNCTION_PICKER_ROWS,
};
use grapher3d::expression::{CompiledExpression, ParseError, MAX_EXPRESSION_LENGTH};
use grapher3d::keys::{
    EVENT_BACK, EVENT_BACKSPACE, EVENT_COSINE, EVENT_DOWN, EVENT_EXE, EVENT_LEFT, EVENT_OK,
    EVENT_RIGHT, EVENT_SINE, EVENT_SPACE, EVENT_SQRT, EVENT_SQUARE, EVENT_TANGENT, EVENT_TOOLBOX,
    EVENT_UP, EVENT_XNT, KEY_BACKSPACE, KEY_LEFT, KEY_OK,
};

fn empty_editor() -> EquationEditor {
    let mut editor = EquationEditor::new();
    assert!(editor.clear());
    editor
}

#[test]
fn inserts_at_beginning_middle_and_end() {
    let mut editor = empty_editor();
    assert!(editor.insert_bytes(b"ac"));
    let _ = editor.move_left();
    assert!(editor.insert_bytes(b"b"));
    assert_eq!(editor.source(), "abc");
    let _ = editor.move_left();
    let _ = editor.move_left();
    let _ = editor.move_left();
    assert!(editor.insert_bytes(b"0"));
    assert_eq!(editor.source(), "0abc");
    while editor.cursor() < editor.source().len() {
        let _ = editor.move_right();
    }
    assert!(editor.insert_bytes(b"z"));
    assert_eq!(editor.source(), "0abcz");
}

#[test]
fn deletes_around_cursor() {
    let mut editor = empty_editor();
    assert!(editor.insert_bytes(b"abcd"));
    let _ = editor.move_left();
    let _ = editor.move_left();
    assert!(editor.backspace());
    assert_eq!(editor.source(), "acd");
    assert_eq!(editor.cursor(), 1);
    assert!(editor.backspace());
    assert_eq!(editor.source(), "cd");
    assert!(!editor.backspace());
}

#[test]
fn cursor_stays_within_expression() {
    let mut editor = empty_editor();
    let _ = editor.move_left();
    assert_eq!(editor.cursor(), 0);
    assert!(editor.insert_bytes(b"xy"));
    let _ = editor.move_right();
    assert_eq!(editor.cursor(), 2);
}

#[test]
fn capacity_is_enforced() {
    let mut editor = empty_editor();
    let full = [b'x'; MAX_EXPRESSION_LENGTH];
    assert!(editor.insert_bytes(&full));
    assert!(!editor.insert_bytes(b"y"));
    assert_eq!(editor.source().len(), MAX_EXPRESSION_LENGTH);
}

#[test]
fn inserts_moves_across_and_deletes_spaces() {
    let mut editor = empty_editor();
    assert!(editor.insert_bytes(b"x"));
    assert_eq!(editor.handle_event(EVENT_SPACE), EditorAction::Changed);
    assert!(editor.insert_bytes(b"y"));
    let _ = editor.move_left();
    let _ = editor.move_left();
    assert_eq!(editor.cursor(), 1);
    let _ = editor.move_right();
    assert_eq!(editor.cursor(), 2);
    assert!(editor.backspace());
    assert_eq!(editor.source(), "xy");
    assert_eq!(editor.cursor(), 1);
    assert!(editor.insert_bytes(b"  "));
    assert_eq!(editor.source(), "x  y");
}

#[test]
fn deletion_at_beginning_and_end_is_safe() {
    let mut editor = empty_editor();
    assert!(!editor.backspace());
    assert!(editor.insert_bytes(b"x "));
    assert!(editor.backspace());
    assert_eq!(editor.source(), "x");
    assert!(editor.backspace());
    assert_eq!(editor.source(), "");
    assert!(!editor.backspace());
}

#[test]
fn function_template_places_cursor_inside_parentheses() {
    let templates = [
        (EVENT_SINE, "sin()", 4),
        (EVENT_COSINE, "cos()", 4),
        (EVENT_TANGENT, "tan()", 4),
        (EVENT_SQRT, "sqrt()", 5),
    ];
    for (value, expected, cursor) in templates {
        let mut editor = empty_editor();
        assert_eq!(editor.handle_event(value), EditorAction::Changed);
        assert_eq!(editor.source(), expected);
        assert_eq!(editor.cursor(), cursor);
    }

    let mut sqrt_editor = empty_editor();
    assert_eq!(sqrt_editor.handle_event(EVENT_SQRT), EditorAction::Changed);
    assert_eq!(sqrt_editor.handle_event(EVENT_XNT), EditorAction::Changed);
    assert_eq!(sqrt_editor.handle_event(EVENT_SQUARE), EditorAction::Changed);
    assert_eq!(sqrt_editor.source(), "sqrt(x^2)");
}

#[test]
fn toolbox_picker_inserts_every_template_at_the_expected_cursor() {
    let mut column = 0_u8;
    while column < 2 {
        let mut row = 0_u8;
        while row < FUNCTION_PICKER_ROWS as u8 {
            let template = FunctionTemplate::from_position(column, row);
            let mut editor = empty_editor();
            assert_eq!(editor.handle_event(EVENT_TOOLBOX), EditorAction::Changed);
            // The picker opens on the first row of the first column; move the
            // selection to (column, row) with the picker's own arrows.
            let mut moved = 0_u8;
            while moved < column {
                assert_eq!(editor.handle_event(EVENT_RIGHT), EditorAction::Changed);
                moved += 1;
            }
            let mut moved = 0_u8;
            while moved < row {
                assert_eq!(editor.handle_event(EVENT_DOWN), EditorAction::Changed);
                moved += 1;
            }
            assert_eq!(editor.function_picker_column(), column);
            assert_eq!(editor.function_picker_row(), row);
            assert_eq!(editor.handle_event(EVENT_EXE), EditorAction::Changed);
            assert_eq!(editor.source().as_bytes(), template.source());
            let expected_cursor = if template.is_binary() {
                template.source().len() - 2
            } else {
                template.source().len() - 1
            };
            assert_eq!(editor.cursor(), expected_cursor, "{:?}", template);
            assert!(!editor.function_picker_open());
            row += 1;
        }
        column += 1;
    }
}

#[test]
fn toolbox_picker_wraps_switches_columns_and_cancels_without_editing() {
    let mut editor = empty_editor();
    assert!(editor.insert_bytes(b"x+"));
    assert_eq!(editor.handle_event(EVENT_TOOLBOX), EditorAction::Changed);
    assert_eq!(editor.selected_function_template(), FunctionTemplate::Sin);
    assert_eq!(editor.handle_event(EVENT_UP), EditorAction::Changed);
    assert_eq!(editor.selected_function_template(), FunctionTemplate::Round);
    assert_eq!(editor.handle_event(EVENT_RIGHT), EditorAction::Changed);
    assert_eq!(editor.selected_function_template(), FunctionTemplate::Atan);
    assert_eq!(editor.handle_event(EVENT_DOWN), EditorAction::Changed);
    assert_eq!(editor.selected_function_template(), FunctionTemplate::Exp);
    assert_eq!(editor.handle_event(EVENT_BACK), EditorAction::Changed);
    assert!(!editor.function_picker_open());
    assert_eq!(editor.source(), "x+");
    assert_eq!(editor.handle_event(EVENT_TOOLBOX), EditorAction::Changed);
    assert_eq!(editor.handle_event(EVENT_OK), EditorAction::FocusTabs);
    assert!(!editor.function_picker_open());
    assert_eq!(editor.source(), "x+");
}

#[test]
fn spaces_count_toward_the_fixed_capacity() {
    let mut editor = empty_editor();
    let full = [b' '; MAX_EXPRESSION_LENGTH];
    assert!(editor.insert_bytes(&full));
    assert!(!editor.insert_bytes(b" "));
    assert_eq!(editor.source().len(), MAX_EXPRESSION_LENGTH);
}

#[test]
fn key_repeat_waits_then_repeats_only_editing_keys() {
    fn key(key: u8) -> u64 {
        1_u64 << key
    }

    let mut repeat = EditorKeyRepeat::new();
    assert_eq!(repeat.update(key(KEY_BACKSPACE), 100), None);
    assert_eq!(repeat.update(key(KEY_BACKSPACE), 549), None);
    assert_eq!(repeat.update(key(KEY_BACKSPACE), 550), Some(EVENT_BACKSPACE));
    assert_eq!(repeat.update(key(KEY_BACKSPACE), 624), None);
    assert_eq!(repeat.update(key(KEY_BACKSPACE), 625), Some(EVENT_BACKSPACE));
    assert_eq!(repeat.update(0, 626), None);
    assert_eq!(repeat.update(key(KEY_LEFT), 700), None);
    assert_eq!(repeat.update(key(KEY_LEFT), 1150), Some(EVENT_LEFT));
    assert_eq!(repeat.update(key(KEY_OK), 2000), None);
}

fn compile_into(editor: &mut EquationEditor, active: &mut CompiledExpression) -> bool {
    match CompiledExpression::compile(editor.source_bytes(), None) {
        Ok(compiled) => {
            *active = compiled;
            editor.set_compile_result(None);
            true
        }
        Err(error) => {
            editor.set_compile_result(Some(error));
            false
        }
    }
}

fn program(expression: &CompiledExpression) -> Vec<grapher3d::expression::Instruction> {
    (0..expression.len()).map(|i| expression.instruction(i)).collect()
}

#[test]
fn whitespace_expression_compiles_identically() {
    let compact = CompiledExpression::compile(b"sin(x)*cos(y)", None).expect("compact expression");
    let spaced =
        CompiledExpression::compile(b"sin ( x ) * cos ( y )", None).expect("whitespace expression");
    assert_eq!(program(&compact), program(&spaced));
}

#[test]
fn failed_compile_preserves_active_expression() {
    let mut active = CompiledExpression::compile(b"x+y", None).expect("initial expression");
    let before = program(&active);
    let mut editor = empty_editor();
    assert!(editor.insert_bytes(b"sin("));
    assert!(!compile_into(&mut editor, &mut active));
    assert_eq!(program(&active), before);
    assert!(editor.error().is_some());
    assert_eq!(editor.source(), "sin(");
}

#[test]
fn invalid_function_arity_preserves_the_active_expression() {
    let mut active = CompiledExpression::compile(b"x+y", None).expect("initial expression");
    let before = program(&active);
    let mut editor = empty_editor();
    assert!(editor.insert_bytes(b"log(10)"));
    assert!(!compile_into(&mut editor, &mut active));
    assert_eq!(program(&active), before);
    assert_eq!(editor.error(), Some(ParseError::InvalidArgumentCount));
}

#[test]
fn valid_replacement_updates_active_expression() {
    let mut active = CompiledExpression::compile(b"x", None).expect("initial expression");
    let mut editor = empty_editor();
    assert!(editor.insert_bytes(b"x^2+y^2"));
    assert!(compile_into(&mut editor, &mut active));
    let expected = CompiledExpression::compile(b"x^2+y^2", None).unwrap();
    assert_eq!(program(&active), program(&expected));
    assert_eq!(editor.error(), None);
}

#[test]
fn binary_template_puts_the_cursor_right_after_the_opening_parenthesis() {
    let mut editor = empty_editor();
    assert_eq!(editor.handle_event(EVENT_TOOLBOX), EditorAction::Changed);
    for _ in 0..2 {
        assert_eq!(editor.handle_event(EVENT_DOWN), EditorAction::Changed);
    }
    assert_eq!(editor.handle_event(EVENT_RIGHT), EditorAction::Changed);
    assert_eq!(editor.selected_function_template(), FunctionTemplate::Log);
    assert_eq!(editor.handle_event(EVENT_EXE), EditorAction::Changed);
    assert_eq!(editor.source(), "log(,)");
    assert_eq!(editor.cursor(), 4);
    assert!(!editor.function_picker_open());
}
