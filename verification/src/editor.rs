//! Fixed-capacity Equation text editor, Toolbox function picker, and
//! non-blocking held-key repetition.
//!
//! The editor stores at most `MAX_EXPRESSION_LENGTH` single-byte characters.
//! Cursor and horizontal scroll are byte indices. The edited source is
//! independent of any compiled program, so a parse failure cannot destroy the
//! graph that was last accepted.
use vstd::prelude::*;
use crate::expression::{
    binary_expression_compiles_to_postfix, compiled, symbol_instruction, Instruction, ParseError,
    MAX_EXPRESSION_LENGTH,
};
use vstd::string::StringSliceAdditionalSpecFns;
use vstd::utf8::{pop_first_scalar, valid_first_scalar, valid_utf8};
use crate::keys::{
    key_down, lowercase_letter, spec_key_down, spec_lowercase_letter, Event, KeyState, EVENT_BACK,
    EVENT_BACKSPACE, EVENT_CLEAR, EVENT_COMMA, EVENT_COSINE, EVENT_DIVISION, EVENT_DOT, EVENT_DOWN,
    EVENT_EE, EVENT_EIGHT, EVENT_EXE, EVENT_FIVE, EVENT_FOUR, EVENT_LEFT, EVENT_LEFT_PARENTHESIS,
    EVENT_MINUS, EVENT_MULTIPLICATION, EVENT_NINE, EVENT_OK, EVENT_ONE, EVENT_PLUS, EVENT_POWER,
    EVENT_RIGHT, EVENT_RIGHT_PARENTHESIS, EVENT_SEVEN, EVENT_SHIFT_LEFT, EVENT_SHIFT_RIGHT,
    EVENT_SINE, EVENT_SIX, EVENT_SPACE, EVENT_SQRT, EVENT_SQUARE, EVENT_TANGENT, EVENT_THREE,
    EVENT_TOOLBOX, EVENT_TWO, EVENT_UP, EVENT_XNT, EVENT_ZERO, KEY_ALPHA, KEY_BACKSPACE, KEY_LEFT,
    KEY_RIGHT, KEY_SHIFT,
};

verus! {

/// Maximum number of fixed-width characters visible in the expression field.
pub const VISIBLE_CHARACTERS: usize = 40;
/// Delay before a supported held editing key begins repeating.
pub const REPEAT_INITIAL_DELAY_MS: u64 = 450;
/// Interval between repeated Backspace/Left/Right editor actions.
pub const REPEAT_INTERVAL_MS: u64 = 75;
/// Number of rows in each column of the Toolbox function picker.
pub const FUNCTION_PICKER_ROWS: usize = 8;

/// Function template selected by the Equation Toolbox picker.
#[derive(Clone, Copy, Debug, PartialEq, Eq, Structural)]
pub enum FunctionTemplate {
    Sin,
    Cos,
    Tan,
    Sqrt,
    Abs,
    Floor,
    Ceil,
    Round,
    Exp,
    Ln,
    Log,
    Min,
    Max,
    Asin,
    Acos,
    Atan,
}

/// Picker layout: column 0 holds Sin..Round, column 1 holds Exp..Atan, each
/// top to bottom. Rows past the last one select that column's last entry,
/// and columns past the second select the second column's last entry.
pub open spec fn template_at(column: u8, row: u8) -> FunctionTemplate {
    if column == 0 {
        if row == 0 {
            FunctionTemplate::Sin
        } else if row == 1 {
            FunctionTemplate::Cos
        } else if row == 2 {
            FunctionTemplate::Tan
        } else if row == 3 {
            FunctionTemplate::Sqrt
        } else if row == 4 {
            FunctionTemplate::Abs
        } else if row == 5 {
            FunctionTemplate::Floor
        } else if row == 6 {
            FunctionTemplate::Ceil
        } else {
            FunctionTemplate::Round
        }
    } else if column == 1 {
        if row == 0 {
            FunctionTemplate::Exp
        } else if row == 1 {
            FunctionTemplate::Ln
        } else if row == 2 {
            FunctionTemplate::Log
        } else if row == 3 {
            FunctionTemplate::Min
        } else if row == 4 {
            FunctionTemplate::Max
        } else if row == 5 {
            FunctionTemplate::Asin
        } else if row == 6 {
            FunctionTemplate::Acos
        } else {
            FunctionTemplate::Atan
        }
    } else {
        FunctionTemplate::Atan
    }
}

/// Lowercase ASCII name of a template's function, e.g. `sin`.
pub open spec fn template_name(template: FunctionTemplate) -> Seq<u8> {
    match template {
        FunctionTemplate::Sin => seq![115u8, 105, 110],
        FunctionTemplate::Cos => seq![99u8, 111, 115],
        FunctionTemplate::Tan => seq![116u8, 97, 110],
        FunctionTemplate::Sqrt => seq![115u8, 113, 114, 116],
        FunctionTemplate::Abs => seq![97u8, 98, 115],
        FunctionTemplate::Floor => seq![102u8, 108, 111, 111, 114],
        FunctionTemplate::Ceil => seq![99u8, 101, 105, 108],
        FunctionTemplate::Round => seq![114u8, 111, 117, 110, 100],
        FunctionTemplate::Exp => seq![101u8, 120, 112],
        FunctionTemplate::Ln => seq![108u8, 110],
        FunctionTemplate::Log => seq![108u8, 111, 103],
        FunctionTemplate::Min => seq![109u8, 105, 110],
        FunctionTemplate::Max => seq![109u8, 97, 120],
        FunctionTemplate::Asin => seq![97u8, 115, 105, 110],
        FunctionTemplate::Acos => seq![97u8, 99, 111, 115],
        FunctionTemplate::Atan => seq![97u8, 116, 97, 110],
    }
}

/// Two-argument templates: `log(base, value)`, `min(a, b)`, `max(a, b)`.
pub open spec fn template_is_binary(template: FunctionTemplate) -> bool {
    template == FunctionTemplate::Log || template == FunctionTemplate::Min
        || template == FunctionTemplate::Max
}

/// Inserted text: the name followed by `()`, or by `(,)` for binary templates.
pub open spec fn template_source(template: FunctionTemplate) -> Seq<u8> {
    if template_is_binary(template) {
        template_name(template) + seq![40u8, 44, 41]
    } else {
        template_name(template) + seq![40u8, 41]
    }
}

impl FunctionTemplate {
    /// Resolves one of the fixed 2-by-8 picker positions.
    pub fn from_position(column: u8, row: u8) -> (template: FunctionTemplate)
        ensures
            template == template_at(column, row),
    {
        if column == 0 {
            if row == 0 {
                FunctionTemplate::Sin
            } else if row == 1 {
                FunctionTemplate::Cos
            } else if row == 2 {
                FunctionTemplate::Tan
            } else if row == 3 {
                FunctionTemplate::Sqrt
            } else if row == 4 {
                FunctionTemplate::Abs
            } else if row == 5 {
                FunctionTemplate::Floor
            } else if row == 6 {
                FunctionTemplate::Ceil
            } else {
                FunctionTemplate::Round
            }
        } else if column == 1 {
            if row == 0 {
                FunctionTemplate::Exp
            } else if row == 1 {
                FunctionTemplate::Ln
            } else if row == 2 {
                FunctionTemplate::Log
            } else if row == 3 {
                FunctionTemplate::Min
            } else if row == 4 {
                FunctionTemplate::Max
            } else if row == 5 {
                FunctionTemplate::Asin
            } else if row == 6 {
                FunctionTemplate::Acos
            } else {
                FunctionTemplate::Atan
            }
        } else {
            FunctionTemplate::Atan
        }
    }

    /// Inserted ASCII template, e.g. `sin()` or `log(,)`.
    pub fn source(self) -> (text: &'static [u8])
        ensures
            text@ == template_source(self),
    {
        proof {
            assert(template_source(self) =~= match self {
                FunctionTemplate::Sin => seq![115u8, 105, 110, 40, 41],
                FunctionTemplate::Cos => seq![99u8, 111, 115, 40, 41],
                FunctionTemplate::Tan => seq![116u8, 97, 110, 40, 41],
                FunctionTemplate::Sqrt => seq![115u8, 113, 114, 116, 40, 41],
                FunctionTemplate::Abs => seq![97u8, 98, 115, 40, 41],
                FunctionTemplate::Floor => seq![102u8, 108, 111, 111, 114, 40, 41],
                FunctionTemplate::Ceil => seq![99u8, 101, 105, 108, 40, 41],
                FunctionTemplate::Round => seq![114u8, 111, 117, 110, 100, 40, 41],
                FunctionTemplate::Exp => seq![101u8, 120, 112, 40, 41],
                FunctionTemplate::Ln => seq![108u8, 110, 40, 41],
                FunctionTemplate::Log => seq![108u8, 111, 103, 40, 44, 41],
                FunctionTemplate::Min => seq![109u8, 105, 110, 40, 44, 41],
                FunctionTemplate::Max => seq![109u8, 97, 120, 40, 44, 41],
                FunctionTemplate::Asin => seq![97u8, 115, 105, 110, 40, 41],
                FunctionTemplate::Acos => seq![97u8, 99, 111, 115, 40, 41],
                FunctionTemplate::Atan => seq![97u8, 116, 97, 110, 40, 41],
            });
        }
        match self {
            FunctionTemplate::Sin => &[115, 105, 110, 40, 41],
            FunctionTemplate::Cos => &[99, 111, 115, 40, 41],
            FunctionTemplate::Tan => &[116, 97, 110, 40, 41],
            FunctionTemplate::Sqrt => &[115, 113, 114, 116, 40, 41],
            FunctionTemplate::Abs => &[97, 98, 115, 40, 41],
            FunctionTemplate::Floor => &[102, 108, 111, 111, 114, 40, 41],
            FunctionTemplate::Ceil => &[99, 101, 105, 108, 40, 41],
            FunctionTemplate::Round => &[114, 111, 117, 110, 100, 40, 41],
            FunctionTemplate::Exp => &[101, 120, 112, 40, 41],
            FunctionTemplate::Ln => &[108, 110, 40, 41],
            FunctionTemplate::Log => &[108, 111, 103, 40, 44, 41],
            FunctionTemplate::Min => &[109, 105, 110, 40, 44, 41],
            FunctionTemplate::Max => &[109, 97, 120, 40, 44, 41],
            FunctionTemplate::Asin => &[97, 115, 105, 110, 40, 41],
            FunctionTemplate::Acos => &[97, 99, 111, 115, 40, 41],
            FunctionTemplate::Atan => &[97, 116, 97, 110, 40, 41],
        }
    }

    /// NUL-terminated display label: the function name followed by a zero byte.
    pub fn label(self) -> (text: &'static [u8])
        ensures
            text@ == template_name(self).push(0u8),
    {
        proof {
            assert(template_name(self).push(0u8) =~= match self {
                FunctionTemplate::Sin => seq![115u8, 105, 110, 0],
                FunctionTemplate::Cos => seq![99u8, 111, 115, 0],
                FunctionTemplate::Tan => seq![116u8, 97, 110, 0],
                FunctionTemplate::Sqrt => seq![115u8, 113, 114, 116, 0],
                FunctionTemplate::Abs => seq![97u8, 98, 115, 0],
                FunctionTemplate::Floor => seq![102u8, 108, 111, 111, 114, 0],
                FunctionTemplate::Ceil => seq![99u8, 101, 105, 108, 0],
                FunctionTemplate::Round => seq![114u8, 111, 117, 110, 100, 0],
                FunctionTemplate::Exp => seq![101u8, 120, 112, 0],
                FunctionTemplate::Ln => seq![108u8, 110, 0],
                FunctionTemplate::Log => seq![108u8, 111, 103, 0],
                FunctionTemplate::Min => seq![109u8, 105, 110, 0],
                FunctionTemplate::Max => seq![109u8, 97, 120, 0],
                FunctionTemplate::Asin => seq![97u8, 115, 105, 110, 0],
                FunctionTemplate::Acos => seq![97u8, 99, 111, 115, 0],
                FunctionTemplate::Atan => seq![97u8, 116, 97, 110, 0],
            });
        }
        match self {
            FunctionTemplate::Sin => &[115, 105, 110, 0],
            FunctionTemplate::Cos => &[99, 111, 115, 0],
            FunctionTemplate::Tan => &[116, 97, 110, 0],
            FunctionTemplate::Sqrt => &[115, 113, 114, 116, 0],
            FunctionTemplate::Abs => &[97, 98, 115, 0],
            FunctionTemplate::Floor => &[102, 108, 111, 111, 114, 0],
            FunctionTemplate::Ceil => &[99, 101, 105, 108, 0],
            FunctionTemplate::Round => &[114, 111, 117, 110, 100, 0],
            FunctionTemplate::Exp => &[101, 120, 112, 0],
            FunctionTemplate::Ln => &[108, 110, 0],
            FunctionTemplate::Log => &[108, 111, 103, 0],
            FunctionTemplate::Min => &[109, 105, 110, 0],
            FunctionTemplate::Max => &[109, 97, 120, 0],
            FunctionTemplate::Asin => &[97, 115, 105, 110, 0],
            FunctionTemplate::Acos => &[97, 99, 111, 115, 0],
            FunctionTemplate::Atan => &[97, 116, 97, 110, 0],
        }
    }

    /// Binary templates place the cursor immediately after the opening `(`.
    pub fn is_binary(self) -> (binary: bool)
        ensures
            binary == template_is_binary(self),
    {
        match self {
            FunctionTemplate::Log | FunctionTemplate::Min | FunctionTemplate::Max => true,
            _ => false,
        }
    }
}

/// Editing key currently being held for repetition.
#[derive(Clone, Copy, Debug, PartialEq, Eq, Structural)]
pub enum RepeatKey {
    Released,
    Backspace,
    Left,
    Right,
}

/// Which repeatable key a raw key sample holds. Shift or Alpha disables
/// repetition; otherwise Backspace wins over Left, which wins over Right.
pub open spec fn held_repeat_key(keys: u64) -> RepeatKey {
    if spec_key_down(keys, KEY_SHIFT) || spec_key_down(keys, KEY_ALPHA) {
        RepeatKey::Released
    } else if spec_key_down(keys, KEY_BACKSPACE) {
        RepeatKey::Backspace
    } else if spec_key_down(keys, KEY_LEFT) {
        RepeatKey::Left
    } else if spec_key_down(keys, KEY_RIGHT) {
        RepeatKey::Right
    } else {
        RepeatKey::Released
    }
}

/// Semantic event synthesized for a repeating key.
pub open spec fn repeat_event(key: RepeatKey) -> Option<u16> {
    match key {
        RepeatKey::Backspace => Some(EVENT_BACKSPACE),
        RepeatKey::Left => Some(EVENT_LEFT),
        RepeatKey::Right => Some(EVENT_RIGHT),
        RepeatKey::Released => None,
    }
}

/// `a + b` clamped to `u64::MAX`.
pub open spec fn saturating_sum(a: u64, b: u64) -> u64 {
    if a + b > u64::MAX {
        u64::MAX
    } else {
        (a + b) as u64
    }
}

/// Time/held-key state for editor-only application-level repetition.
pub struct EditorKeyRepeat {
    key: RepeatKey,
    next_repeat_ms: u64,
}

impl View for EditorKeyRepeat {
    type V = (RepeatKey, u64);

    closed spec fn view(&self) -> (RepeatKey, u64) {
        (self.key, self.next_repeat_ms)
    }
}

impl EditorKeyRepeat {
    /// Creates an idle repeat state.
    pub fn new() -> (repeat: EditorKeyRepeat)
        ensures
            repeat@ == (RepeatKey::Released, 0u64),
    {
        EditorKeyRepeat { key: RepeatKey::Released, next_repeat_ms: 0 }
    }

    /// Cancels any pending initial delay or repeat sequence.
    pub fn reset(&mut self)
        ensures
            final(self)@ == (RepeatKey::Released, 0u64),
    {
        self.key = RepeatKey::Released;
        self.next_repeat_ms = 0;
    }

    /// Observes raw held keys and emits at most one semantic editing event.
    ///
    /// Releasing every repeatable key resets the state. A newly held key arms
    /// the initial delay without emitting. A key held past its deadline emits
    /// its event and re-arms the shorter repeat interval.
    pub fn update(&mut self, keys: KeyState, now_ms: u64) -> (event: Option<Event>)
        ensures
            ({
                let held = held_repeat_key(keys);
                let (key, next) = old(self)@;
                if held == RepeatKey::Released {
                    final(self)@ == (RepeatKey::Released, 0u64) && event is None
                } else if held != key {
                    final(self)@ == (held, saturating_sum(now_ms, REPEAT_INITIAL_DELAY_MS))
                        && event is None
                } else if now_ms < next {
                    final(self)@ == old(self)@ && event is None
                } else {
                    final(self)@ == (held, saturating_sum(now_ms, REPEAT_INTERVAL_MS))
                        && event == repeat_event(held)
                }
            }),
    {
        let modifier_down = key_down(keys, KEY_SHIFT) || key_down(keys, KEY_ALPHA);
        let held = if modifier_down {
            RepeatKey::Released
        } else if key_down(keys, KEY_BACKSPACE) {
            RepeatKey::Backspace
        } else if key_down(keys, KEY_LEFT) {
            RepeatKey::Left
        } else if key_down(keys, KEY_RIGHT) {
            RepeatKey::Right
        } else {
            RepeatKey::Released
        };
        if held == RepeatKey::Released {
            self.reset();
            return None;
        }
        if held != self.key {
            self.key = held;
            self.next_repeat_ms = now_ms.saturating_add(REPEAT_INITIAL_DELAY_MS);
            return None;
        }
        if now_ms < self.next_repeat_ms {
            return None;
        }
        self.next_repeat_ms = now_ms.saturating_add(REPEAT_INTERVAL_MS);
        match held {
            RepeatKey::Backspace => Some(EVENT_BACKSPACE),
            RepeatKey::Left => Some(EVENT_LEFT),
            RepeatKey::Right => Some(EVENT_RIGHT),
            RepeatKey::Released => None,
        }
    }
}

/// Intent produced by one editor event for the application to resolve.
#[derive(Clone, Copy, Debug, PartialEq, Eq, Structural)]
pub enum EditorAction {
    Unchanged,
    Changed,
    Submit,
    Cancel,
    FocusTabs,
}

/// Abstract editor state: the source text, cursor and scroll positions, the
/// last compile error, and the Toolbox picker selection.
pub struct EditorModel {
    pub text: Seq<u8>,
    pub cursor: nat,
    pub scroll: nat,
    pub error: Option<ParseError>,
    pub picker_open: bool,
    pub picker_column: u8,
    pub picker_row: u8,
}

/// First visible byte after moving the cursor: the window scrolls just far
/// enough that `scroll <= cursor <= scroll + VISIBLE_CHARACTERS`.
pub open spec fn scroll_for(cursor: nat, scroll: nat) -> nat {
    if cursor < scroll {
        cursor
    } else if cursor > scroll + VISIBLE_CHARACTERS {
        (cursor - VISIBLE_CHARACTERS) as nat
    } else {
        scroll
    }
}

/// Bytes inserted by a plain character event (not a function key).
pub open spec fn event_text(value: u16) -> Option<Seq<u8>> {
    if value == EVENT_XNT {
        Some(seq![120u8])
    } else if value == EVENT_SQUARE {
        Some(seq![94u8, 50])
    } else if value == EVENT_POWER {
        Some(seq![94u8])
    } else if value == EVENT_LEFT_PARENTHESIS {
        Some(seq![40u8])
    } else if value == EVENT_RIGHT_PARENTHESIS {
        Some(seq![41u8])
    } else if value == EVENT_MULTIPLICATION {
        Some(seq![42u8])
    } else if value == EVENT_DIVISION {
        Some(seq![47u8])
    } else if value == EVENT_PLUS {
        Some(seq![43u8])
    } else if value == EVENT_MINUS {
        Some(seq![45u8])
    } else if value == EVENT_DOT {
        Some(seq![46u8])
    } else if value == EVENT_COMMA {
        Some(seq![44u8])
    } else if value == EVENT_EE {
        Some(seq![101u8])
    } else if value == EVENT_SPACE {
        Some(seq![32u8])
    } else if value == EVENT_ZERO {
        Some(seq![48u8])
    } else if value == EVENT_ONE {
        Some(seq![49u8])
    } else if value == EVENT_TWO {
        Some(seq![50u8])
    } else if value == EVENT_THREE {
        Some(seq![51u8])
    } else if value == EVENT_FOUR {
        Some(seq![52u8])
    } else if value == EVENT_FIVE {
        Some(seq![53u8])
    } else if value == EVENT_SIX {
        Some(seq![54u8])
    } else if value == EVENT_SEVEN {
        Some(seq![55u8])
    } else if value == EVENT_EIGHT {
        Some(seq![56u8])
    } else if value == EVENT_NINE {
        Some(seq![57u8])
    } else {
        match spec_lowercase_letter(value) {
            Some(letter) => Some(seq![letter]),
            None => None,
        }
    }
}

/// Template inserted by a dedicated function key (sin, cos, tan, sqrt).
pub open spec fn function_key_template(value: u16) -> Option<FunctionTemplate> {
    if value == EVENT_SINE {
        Some(FunctionTemplate::Sin)
    } else if value == EVENT_COSINE {
        Some(FunctionTemplate::Cos)
    } else if value == EVENT_TANGENT {
        Some(FunctionTemplate::Tan)
    } else if value == EVENT_SQRT {
        Some(FunctionTemplate::Sqrt)
    } else {
        None
    }
}

impl EditorModel {
    /// Structural invariant kept by every editor operation.
    pub open spec fn wf(self) -> bool {
        &&& self.text.len() <= MAX_EXPRESSION_LENGTH
        &&& is_ascii_bytes(self.text)
        &&& self.cursor <= self.text.len()
        &&& self.scroll <= self.cursor <= self.scroll + VISIBLE_CHARACTERS
        &&& self.picker_column < 2
        &&& self.picker_row < FUNCTION_PICKER_ROWS
    }

    /// The same state with the cursor moved and the window scrolled to it.
    pub open spec fn with_cursor(self, cursor: nat) -> EditorModel {
        EditorModel { cursor, scroll: scroll_for(cursor, self.scroll), ..self }
    }

    /// Whether `bytes` still fits in the fixed capacity.
    pub open spec fn fits(self, bytes: Seq<u8>) -> bool {
        self.text.len() + bytes.len() <= MAX_EXPRESSION_LENGTH
    }

    /// Text with `bytes` spliced in at the cursor, the cursor placed after
    /// them, and any stale compile error cleared.
    pub open spec fn inserted(self, bytes: Seq<u8>) -> EditorModel {
        EditorModel {
            text: self.text.take(self.cursor as int) + bytes + self.text.skip(self.cursor as int),
            error: None,
            ..self
        }.with_cursor(self.cursor + bytes.len())
    }

    /// Text with the byte before the cursor removed and the cursor moved back.
    pub open spec fn backspaced(self) -> EditorModel {
        EditorModel {
            text: self.text.remove(self.cursor - 1),
            error: None,
            ..self
        }.with_cursor((self.cursor - 1) as nat)
    }

    /// Empty text with cursor, scroll and error reset.
    pub open spec fn cleared(self) -> EditorModel {
        EditorModel { text: Seq::empty(), cursor: 0, scroll: 0, error: None, ..self }
    }

    /// Insert `bytes` when they fit; the action reports whether anything changed.
    pub open spec fn insert_action(self, bytes: Seq<u8>) -> (EditorModel, EditorAction) {
        if self.fits(bytes) {
            (self.inserted(bytes), EditorAction::Changed)
        } else {
            (self, EditorAction::Unchanged)
        }
    }

    /// Insert a template, then place the cursor just inside its parentheses:
    /// before `)` for unary templates and right after `(` for binary ones.
    pub open spec fn template_action(self, template: FunctionTemplate) -> (EditorModel, EditorAction) {
        let source = template_source(template);
        if self.fits(source) {
            let back: nat = if template_is_binary(template) { 2 } else { 1 };
            (self.inserted(source).with_cursor((self.cursor + source.len() - back) as nat),
             EditorAction::Changed)
        } else {
            (self, EditorAction::Unchanged)
        }
    }

    /// Effect of one event while the Toolbox picker is open.
    pub open spec fn picker_step(self, value: u16) -> (EditorModel, EditorAction) {
        if value == EVENT_UP {
            let row: u8 = if self.picker_row == 0 { 7 } else { (self.picker_row - 1) as u8 };
            (EditorModel { picker_row: row, ..self }, EditorAction::Changed)
        } else if value == EVENT_DOWN {
            (EditorModel { picker_row: ((self.picker_row + 1) % 8) as u8, ..self }, EditorAction::Changed)
        } else if value == EVENT_LEFT || value == EVENT_RIGHT {
            (EditorModel { picker_column: (1 - self.picker_column) as u8, ..self }, EditorAction::Changed)
        } else if value == EVENT_EXE {
            EditorModel { picker_open: false, ..self }.template_action(
                template_at(self.picker_column, self.picker_row),
            )
        } else if value == EVENT_BACK {
            (EditorModel { picker_open: false, ..self }, EditorAction::Changed)
        } else if value == EVENT_OK {
            (EditorModel { picker_open: false, ..self }, EditorAction::FocusTabs)
        } else {
            (self, EditorAction::Unchanged)
        }
    }

    /// Effect of one semantic event: the new state and the intent reported.
    pub open spec fn step(self, value: u16) -> (EditorModel, EditorAction) {
        if self.picker_open {
            self.picker_step(value)
        } else if value == EVENT_LEFT {
            if self.cursor > 0 {
                (self.with_cursor((self.cursor - 1) as nat), EditorAction::Changed)
            } else {
                (self, EditorAction::Unchanged)
            }
        } else if value == EVENT_RIGHT {
            if self.cursor < self.text.len() {
                (self.with_cursor(self.cursor + 1), EditorAction::Changed)
            } else {
                (self, EditorAction::Unchanged)
            }
        } else if value == EVENT_SHIFT_LEFT {
            if self.cursor != 0 {
                (self.with_cursor(0), EditorAction::Changed)
            } else {
                (self, EditorAction::Unchanged)
            }
        } else if value == EVENT_SHIFT_RIGHT {
            if self.cursor != self.text.len() {
                (self.with_cursor(self.text.len()), EditorAction::Changed)
            } else {
                (self, EditorAction::Unchanged)
            }
        } else if value == EVENT_OK {
            (self, EditorAction::FocusTabs)
        } else if value == EVENT_BACK {
            (self, EditorAction::Cancel)
        } else if value == EVENT_BACKSPACE {
            if self.cursor > 0 {
                (self.backspaced(), EditorAction::Changed)
            } else {
                (self, EditorAction::Unchanged)
            }
        } else if value == EVENT_CLEAR {
            if self.text.len() > 0 {
                (self.cleared(), EditorAction::Changed)
            } else {
                (self, EditorAction::Unchanged)
            }
        } else if value == EVENT_EXE {
            (self, EditorAction::Submit)
        } else if value == EVENT_TOOLBOX {
            (EditorModel { picker_open: true, picker_column: 0, picker_row: 0, ..self },
             EditorAction::Changed)
        } else if function_key_template(value) is Some {
            self.template_action(function_key_template(value).unwrap())
        } else if event_text(value) is Some {
            self.insert_action(event_text(value).unwrap())
        } else {
            (self, EditorAction::Unchanged)
        }
    }
}

/// Typing one byte and deleting it again with Backspace restores the text
/// and the cursor position.
pub proof fn insert_then_backspace_restores(editor: EditorModel, byte: u8)
    requires
        editor.wf(),
        editor.fits(seq![byte]),
    ensures
        editor.inserted(seq![byte]).backspaced().text == editor.text,
        editor.inserted(seq![byte]).backspaced().cursor == editor.cursor,
{
    let c = editor.cursor as int;
    assert((editor.text.take(c) + seq![byte] + editor.text.skip(c)).remove(c) =~= editor.text);
}

proof fn lemma_spliced(editor: EditorModel, source: Seq<u8>)
    requires
        editor.wf(),
        is_ascii_bytes(source),
    ensures
        editor.fits(source) ==> editor.inserted(source).wf(),
{
    let c = editor.cursor as int;
    assert((editor.text.take(c) + source + editor.text.skip(c)).len() == editor.text.len()
        + source.len());
    lemma_inserted_ascii(editor, source);
}

proof fn lemma_removed_ascii(text: Seq<u8>, k: int)
    requires
        is_ascii_bytes(text),
        0 <= k < text.len(),
    ensures
        is_ascii_bytes(text.remove(k)),
{
    let removed = text.remove(k);
    assert forall|i: int| 0 <= i < removed.len() implies #[trigger] removed[i] < 128 by {
        if i < k {
            assert(removed[i] == text[i]);
        } else {
            assert(removed[i] == text[i + 1]);
        }
    }
}

/// Every semantic event keeps the editor within its capacity, keeps the
/// text ASCII, keeps the cursor inside the text, and keeps the cursor
/// inside the visible window.
pub proof fn step_preserves_wf(editor: EditorModel, value: u16)
    requires
        editor.wf(),
    ensures
        editor.step(value).0.wf(),
{
    if editor.picker_open {
        if value == EVENT_EXE {
            let t = template_at(editor.picker_column, editor.picker_row);
            lemma_template_ascii(t);
            lemma_spliced(EditorModel { picker_open: false, ..editor }, template_source(t));
        }
    } else if value == EVENT_BACKSPACE {
        if editor.cursor > 0 {
            lemma_removed_ascii(editor.text, editor.cursor - 1);
        }
    } else if function_key_template(value) is Some {
        let t = function_key_template(value).unwrap();
        lemma_template_ascii(t);
        lemma_spliced(editor, template_source(t));
    } else if event_text(value) is Some {
        lemma_event_text_ascii(value);
        lemma_spliced(editor, event_text(value).unwrap());
    }
}

/// An event that is not an edit (cursor motion, focus, submit, cancel, or
/// picker navigation) never changes the text.
pub proof fn navigation_keeps_text(editor: EditorModel, value: u16)
    requires
        editor.wf(),
        value == EVENT_LEFT || value == EVENT_RIGHT || value == EVENT_SHIFT_LEFT
            || value == EVENT_SHIFT_RIGHT || value == EVENT_OK || value == EVENT_BACK
            || value == EVENT_UP || value == EVENT_DOWN || value == EVENT_TOOLBOX,
    ensures
        editor.step(value).0.text == editor.text,
{
}

/// The keys of the four operations and of the power: `+`, `-`, `×`, `÷`
/// and `^`.
pub open spec fn is_arithmetic_key(value: u16) -> bool {
    value == EVENT_PLUS || value == EVENT_MINUS || value == EVENT_MULTIPLICATION || value
        == EVENT_DIVISION || value == EVENT_POWER
}

/// The operator symbol printed on an arithmetic key: `+`, `-`, `*` for
/// the multiplication key, `/` for the division key, and `^`.
pub open spec fn arithmetic_key_symbol(value: u16) -> u8 {
    if value == EVENT_PLUS {
        43
    } else if value == EVENT_MINUS {
        45
    } else if value == EVENT_MULTIPLICATION {
        42
    } else if value == EVENT_DIVISION {
        47
    } else {
        94
    }
}

/// An arithmetic key types its own operator symbol at the cursor, whatever
/// the text: the division key types `/`, the multiplication key `*`, and so
/// on, and the cursor moves past the symbol.
pub proof fn arithmetic_key_types_its_symbol(editor: EditorModel, value: u16)
    requires
        editor.wf(),
        !editor.picker_open,
        is_arithmetic_key(value),
        editor.fits(seq![arithmetic_key_symbol(value)]),
    ensures
        editor.step(value).0.text == editor.text.take(editor.cursor as int) + seq![
            arithmetic_key_symbol(value),
        ] + editor.text.skip(editor.cursor as int),
        editor.step(value).0.cursor == editor.cursor + 1,
        editor.step(value).1 == EditorAction::Changed,
{
}

/// The digit keys of the keypad: `7 8 9`, `4 5 6` and `1 2 3` in rows of
/// six key positions, and `0` below them.
pub open spec fn is_digit_key(value: u16) -> bool {
    value == EVENT_ZERO || (EVENT_SEVEN <= value <= EVENT_THREE && (value - EVENT_SEVEN) % 6 < 3)
}

/// The digit printed on a digit key, read off its place on the keypad: the
/// top row starts at 7, each row below starts three lower, and digits grow
/// to the right.
pub open spec fn keypad_digit(value: u16) -> int {
    if value == EVENT_ZERO {
        0
    } else {
        7 - 3 * ((value - EVENT_SEVEN) / 6) + (value - EVENT_SEVEN) % 6
    }
}

/// A digit key types the digit printed on it at the cursor.
pub proof fn digit_key_types_its_digit(editor: EditorModel, value: u16)
    requires
        editor.wf(),
        !editor.picker_open,
        is_digit_key(value),
        editor.fits(seq![0u8]),
    ensures
        editor.step(value).0.text == editor.text.take(editor.cursor as int) + seq![
            (48 + keypad_digit(value)) as u8,
        ] + editor.text.skip(editor.cursor as int),
        editor.step(value).0.cursor == editor.cursor + 1,
{
}

/// In an empty Equation field, `x`, an arithmetic key and `x` again type an
/// expression that compiles to `x`, `x` and the operation printed on the
/// key: the division key divides and the multiplication key multiplies.
pub proof fn arithmetic_key_compiles_to_its_operation(editor: EditorModel, value: u16)
    requires
        editor.wf(),
        !editor.picker_open,
        editor.text.len() == 0,
        is_arithmetic_key(value),
    ensures
        ({
            let typed = editor.step(EVENT_XNT).0.step(value).0.step(EVENT_XNT).0;
            &&& typed.text == seq![120u8, arithmetic_key_symbol(value), 120u8]
            &&& compiled(typed.text, None) == Ok::<Seq<Instruction>, ParseError>(
                seq![
                    Instruction::X,
                    Instruction::X,
                    symbol_instruction(arithmetic_key_symbol(value)),
                ],
            )
        }),
{
    let e1 = editor.step(EVENT_XNT).0;
    assert(e1.text =~= seq![120u8]);
    assert(e1.cursor == 1);
    step_preserves_wf(editor, EVENT_XNT);
    arithmetic_key_types_its_symbol(e1, value);
    let e2 = e1.step(value).0;
    assert(e2.text =~= seq![120u8, arithmetic_key_symbol(value)]);
    step_preserves_wf(e1, value);
    let e3 = e2.step(EVENT_XNT).0;
    assert(e3.text =~= seq![120u8, arithmetic_key_symbol(value), 120u8]);
    binary_expression_compiles_to_postfix(120u8, arithmetic_key_symbol(value), 120u8);
}

/// In the open Toolbox picker, Up and Down wrap within a column and undo
/// each other, and Left/Right switches columns so that twice returns to
/// the start; none of them changes the text or closes the picker.
pub proof fn picker_moves_wrap(editor: EditorModel)
    requires
        editor.wf(),
        editor.picker_open,
    ensures
        editor.step(EVENT_UP).0.step(EVENT_DOWN).0 == editor,
        editor.step(EVENT_DOWN).0.step(EVENT_UP).0 == editor,
        editor.step(EVENT_LEFT).0.step(EVENT_LEFT).0 == editor,
        editor.step(EVENT_RIGHT).0.step(EVENT_RIGHT).0 == editor,
        editor.step(EVENT_UP).0.text == editor.text && editor.step(EVENT_UP).0.picker_open,
        editor.step(EVENT_DOWN).0.text == editor.text && editor.step(EVENT_DOWN).0.picker_open,
        editor.step(EVENT_LEFT).0.picker_column != editor.picker_column,
        editor.step(EVENT_DOWN).0.picker_row == (editor.picker_row + 1) % 8,
{
}

/// Editable source, cursor/scroll state, the current parse error, and the
/// Toolbox picker selection.
pub struct EquationEditor {
    text: Vec<u8>,
    cursor: usize,
    scroll: usize,
    error: Option<ParseError>,
    picker_open: bool,
    picker_column: u8,
    picker_row: u8,
}

impl View for EquationEditor {
    type V = EditorModel;

    closed spec fn view(&self) -> EditorModel {
        EditorModel {
            text: self.text@,
            cursor: self.cursor as nat,
            scroll: self.scroll as nat,
            error: self.error,
            picker_open: self.picker_open,
            picker_column: self.picker_column,
            picker_row: self.picker_row,
        }
    }
}

/// The source shown when the application starts: `sin(x) * cos(y)`.
pub open spec fn initial_expression() -> Seq<u8> {
    seq![115u8, 105, 110, 40, 120, 41, 32, 42, 32, 99, 111, 115, 40, 121, 41]
}

/// Every byte is 7-bit ASCII.
pub open spec fn is_ascii_bytes(bytes: Seq<u8>) -> bool {
    forall|i: int| 0 <= i < bytes.len() ==> #[trigger] bytes[i] < 128
}

proof fn lemma_event_text_ascii(value: u16)
    ensures
        event_text(value) matches Some(text) ==> is_ascii_bytes(text),
{
    if let Some(text) = event_text(value) {
        assert(spec_lowercase_letter(value) matches Some(letter) ==> 97 <= letter <= 122);
        assert forall|i: int| 0 <= i < text.len() implies #[trigger] text[i] < 128 by {}
    }
}

proof fn lemma_template_ascii(template: FunctionTemplate)
    ensures
        is_ascii_bytes(template_source(template)),
{
    let source = template_source(template);
    assert forall|i: int| 0 <= i < source.len() implies #[trigger] source[i] < 128 by {
        let name = template_name(template);
        if i < name.len() {
            assert(source[i] == name[i]);
        }
    }
}

proof fn lemma_inserted_ascii(editor: EditorModel, bytes: Seq<u8>)
    requires
        editor.wf(),
        is_ascii_bytes(bytes),
    ensures
        is_ascii_bytes(editor.inserted(bytes).text),
{
    let c = editor.cursor as int;
    let text = editor.text.take(c) + bytes + editor.text.skip(c);
    assert forall|i: int| 0 <= i < text.len() implies #[trigger] text[i] < 128 by {
        if i < c {
            assert(text[i] == editor.text[i]);
        } else if i < c + bytes.len() {
            assert(text[i] == bytes[i - c]);
        } else {
            assert(text[i] == editor.text[i - bytes.len()]);
        }
    }
}

/// 7-bit ASCII text is valid UTF-8: every byte encodes one scalar alone.
pub proof fn ascii_is_utf8(bytes: Seq<u8>)
    requires
        is_ascii_bytes(bytes),
    ensures
        valid_utf8(bytes),
    decreases bytes.len(),
{
    if bytes.len() != 0 {
        let rest = bytes.subrange(1, bytes.len() as int);
        assert(bytes[0] < 128);
        assert(valid_first_scalar(bytes));
        assert(pop_first_scalar(bytes) =~= rest);
        assert forall|i: int| 0 <= i < rest.len() implies #[trigger] rest[i] < 128 by {
            assert(rest[i] == bytes[i + 1]);
        }
        ascii_is_utf8(rest);
    }
}

/// Calls `core::str::from_utf8`. Trusted: it accepts exactly the valid
/// UTF-8 byte strings, and an accepted string holds the very same bytes.
#[verifier::external_body]
pub(crate) fn utf8_text(bytes: &[u8]) -> (text: Option<&str>)
    ensures
        text is Some == valid_utf8(bytes@),
        text matches Some(t) ==> t.spec_bytes() == bytes@,
{
    core::str::from_utf8(bytes).ok()
}

impl EquationEditor {
    /// Editor preloaded with `sin(x) * cos(y)`, cursor at its end.
    pub fn new() -> (editor: EquationEditor)
        ensures
            editor@.wf(),
            editor@.text == initial_expression(),
            editor@.cursor == initial_expression().len(),
            editor@.scroll == 0,
            editor@.error is None,
            !editor@.picker_open,
            editor@.picker_column == 0,
            editor@.picker_row == 0,
    {
        let mut editor = EquationEditor {
            text: Vec::new(),
            cursor: 0,
            scroll: 0,
            error: None,
            picker_open: false,
            picker_column: 0,
            picker_row: 0,
        };
        let initial: &[u8] = &[115, 105, 110, 40, 120, 41, 32, 42, 32, 99, 111, 115, 40, 121, 41];
        proof {
            assert(initial@ =~= initial_expression());
            assert(editor@.text.take(0) + initial@ + editor@.text.skip(0) =~= initial@);
        }
        let _ = editor.insert_bytes(initial);
        editor
    }

    /// Current source as a string slice; the text is always ASCII, so this
    /// is the whole edited buffer.
    pub fn source(&self) -> (text: &str)
        requires
            self@.wf(),
        ensures
            text.spec_bytes() == self@.text,
    {
        proof {
            ascii_is_utf8(self@.text);
        }
        match utf8_text(self.text.as_slice()) {
            Some(text) => text,
            None => {
                proof {
                    assert(false);
                }
                ""
            },
        }
    }

    /// Current source bytes.
    pub fn source_bytes(&self) -> (bytes: &[u8])
        ensures
            bytes@ == self@.text,
    {
        self.text.as_slice()
    }

    /// Current insertion point in bytes/characters.
    pub fn cursor(&self) -> (cursor: usize)
        ensures
            cursor == self@.cursor,
    {
        self.cursor
    }

    /// First visible byte in the horizontally scrolled field.
    pub fn scroll(&self) -> (scroll: usize)
        ensures
            scroll == self@.scroll,
    {
        self.scroll
    }

    /// Visible source slice: from the scroll position, at most
    /// `VISIBLE_CHARACTERS` bytes.
    pub fn visible_bytes(&self) -> (bytes: &[u8])
        requires
            self@.wf(),
        ensures
            bytes@ == self@.text.subrange(
                self@.scroll as int,
                if self@.text.len() < self@.scroll + VISIBLE_CHARACTERS {
                    self@.text.len() as int
                } else {
                    self@.scroll + VISIBLE_CHARACTERS
                },
            ),
    {
        let end = if self.text.len() < self.scroll + VISIBLE_CHARACTERS {
            self.text.len()
        } else {
            self.scroll + VISIBLE_CHARACTERS
        };
        vstd::slice::slice_subrange(self.text.as_slice(), self.scroll, end)
    }

    /// Last compilation error, cleared by the next edit or successful compile.
    pub fn error(&self) -> (error: Option<ParseError>)
        ensures
            error == self@.error,
    {
        self.error
    }

    /// Whether the Toolbox function picker owns Equation arrows.
    pub fn function_picker_open(&self) -> (open: bool)
        ensures
            open == self@.picker_open,
    {
        self.picker_open
    }

    /// Template at the picker's current selection.
    pub fn selected_function_template(&self) -> (template: FunctionTemplate)
        ensures
            template == template_at(self@.picker_column, self@.picker_row),
    {
        FunctionTemplate::from_position(self.picker_column, self.picker_row)
    }

    /// Selected picker column.
    pub fn function_picker_column(&self) -> (column: u8)
        ensures
            column == self@.picker_column,
    {
        self.picker_column
    }

    /// Selected picker row.
    pub fn function_picker_row(&self) -> (row: u8)
        ensures
            row == self@.picker_row,
    {
        self.picker_row
    }

    /// Closes the picker without changing the text; reports whether it was open.
    pub fn close_function_picker(&mut self) -> (closed: bool)
        ensures
            closed == old(self)@.picker_open,
            final(self)@ == (EditorModel { picker_open: false, ..old(self)@ }),
    {
        if !self.picker_open {
            return false;
        }
        self.picker_open = false;
        true
    }

    /// Records the outcome of compiling the current source: a failure is kept
    /// for display, a success clears any earlier error. The text is untouched.
    pub fn set_compile_result(&mut self, error: Option<ParseError>)
        ensures
            final(self)@ == (EditorModel { error, ..old(self)@ }),
    {
        self.error = error;
    }

    /// Clears an error without changing the edited text.
    pub fn dismiss_error(&mut self)
        ensures
            final(self)@ == (EditorModel { error: None, ..old(self)@ }),
    {
        self.error = None;
    }

    fn update_scroll(&mut self)
        requires
            old(self)@.scroll <= MAX_EXPRESSION_LENGTH,
        ensures
            final(self)@ == old(self)@.with_cursor(old(self)@.cursor),
    {
        if self.cursor < self.scroll {
            self.scroll = self.cursor;
        } else if self.cursor > self.scroll + VISIBLE_CHARACTERS {
            self.scroll = self.cursor - VISIBLE_CHARACTERS;
        }
    }

    /// Inserts ASCII `bytes` at the cursor when they fit in the fixed capacity.
    pub fn insert_bytes(&mut self, bytes: &[u8]) -> (inserted: bool)
        requires
            old(self)@.wf(),
            is_ascii_bytes(bytes@),
        ensures
            inserted == old(self)@.fits(bytes@),
            inserted ==> final(self)@ == old(self)@.inserted(bytes@),
            !inserted ==> final(self)@ == old(self)@,
            final(self)@.wf(),
    {
        if bytes.len() > MAX_EXPRESSION_LENGTH - self.text.len() {
            return false;
        }
        let ghost before = self@;
        let start = self.cursor;
        let mut index: usize = 0;
        proof {
            assert(before.text.take(start as int) + bytes@.take(0) + before.text.skip(start as int)
                =~= before.text);
        }
        while index < bytes.len()
            invariant
                0 <= index <= bytes.len(),
                start == before.cursor,
                before.wf(),
                before.fits(bytes@),
                self@ == (EditorModel {
                    text: before.text.take(start as int) + bytes@.take(index as int)
                        + before.text.skip(start as int),
                    ..before
                }),
            decreases bytes.len() - index,
        {
            proof {
                let prefix = before.text.take(start as int);
                let suffix = before.text.skip(start as int);
                assert((prefix + bytes@.take(index as int) + suffix).insert(
                    start + index,
                    bytes@[index as int],
                ) =~= prefix + bytes@.take(index + 1) + suffix);
            }
            self.text.insert(start + index, bytes[index]);
            index = index + 1;
        }
        proof {
            assert(bytes@.take(bytes@.len() as int) =~= bytes@);
        }
        self.cursor = start + bytes.len();
        self.error = None;
        self.update_scroll();
        true
    }

    /// Deletes the byte before the cursor; false when the cursor is at the start.
    pub fn backspace(&mut self) -> (deleted: bool)
        requires
            old(self)@.wf(),
        ensures
            deleted == (old(self)@.cursor > 0),
            deleted ==> final(self)@ == old(self)@.backspaced(),
            !deleted ==> final(self)@ == old(self)@,
            final(self)@.wf(),
    {
        if self.cursor == 0 {
            return false;
        }
        let removed = self.cursor - 1;
        self.text.remove(removed);
        self.cursor = removed;
        self.error = None;
        self.update_scroll();
        true
    }

    /// Empties the field; false when it was already empty.
    pub fn clear(&mut self) -> (cleared: bool)
        requires
            old(self)@.wf(),
        ensures
            cleared == (old(self)@.text.len() > 0),
            cleared ==> final(self)@ == old(self)@.cleared(),
            !cleared ==> final(self)@ == old(self)@,
            final(self)@.wf(),
    {
        if self.text.len() == 0 {
            return false;
        }
        self.text.clear();
        self.cursor = 0;
        self.scroll = 0;
        self.error = None;
        true
    }

    /// Moves the cursor one byte left; false at the start.
    pub fn move_left(&mut self) -> (moved: bool)
        requires
            old(self)@.wf(),
        ensures
            moved == (old(self)@.cursor > 0),
            moved ==> final(self)@ == old(self)@.with_cursor((old(self)@.cursor - 1) as nat),
            !moved ==> final(self)@ == old(self)@,
            final(self)@.wf(),
    {
        if self.cursor > 0 {
            self.cursor = self.cursor - 1;
            self.update_scroll();
            true
        } else {
            false
        }
    }

    /// Moves the cursor one byte right; false at the end.
    pub fn move_right(&mut self) -> (moved: bool)
        requires
            old(self)@.wf(),
        ensures
            moved == (old(self)@.cursor < old(self)@.text.len()),
            moved ==> final(self)@ == old(self)@.with_cursor(old(self)@.cursor + 1),
            !moved ==> final(self)@ == old(self)@,
            final(self)@.wf(),
    {
        if self.cursor < self.text.len() {
            self.cursor = self.cursor + 1;
            self.update_scroll();
            true
        } else {
            false
        }
    }

    /// Moves the cursor to the start; false when already there.
    pub fn move_to_start(&mut self) -> (moved: bool)
        requires
            old(self)@.wf(),
        ensures
            moved == (old(self)@.cursor != 0),
            moved ==> final(self)@ == old(self)@.with_cursor(0),
            !moved ==> final(self)@ == old(self)@,
            final(self)@.wf(),
    {
        if self.cursor == 0 {
            return false;
        }
        self.cursor = 0;
        self.update_scroll();
        true
    }

    /// Moves the cursor to the end; false when already there.
    pub fn move_to_end(&mut self) -> (moved: bool)
        requires
            old(self)@.wf(),
        ensures
            moved == (old(self)@.cursor != old(self)@.text.len()),
            moved ==> final(self)@ == old(self)@.with_cursor(old(self)@.text.len()),
            !moved ==> final(self)@ == old(self)@,
            final(self)@.wf(),
    {
        if self.cursor == self.text.len() {
            return false;
        }
        self.cursor = self.text.len();
        self.update_scroll();
        true
    }

    fn insert_action(&mut self, bytes: &[u8]) -> (action: EditorAction)
        requires
            old(self)@.wf(),
            is_ascii_bytes(bytes@),
        ensures
            (final(self)@, action) == old(self)@.insert_action(bytes@),
            final(self)@.wf(),
    {
        if self.insert_bytes(bytes) {
            EditorAction::Changed
        } else {
            EditorAction::Unchanged
        }
    }

    fn insert_template_action(&mut self, template: FunctionTemplate) -> (action: EditorAction)
        requires
            old(self)@.wf(),
        ensures
            (final(self)@, action) == old(self)@.template_action(template),
            final(self)@.wf(),
    {
        let start = self.cursor;
        let source = template.source();
        proof {
            lemma_template_ascii(template);
        }
        if !self.insert_bytes(source) {
            return EditorAction::Unchanged;
        }
        self.cursor = if template.is_binary() {
            start + source.len() - 2
        } else {
            start + source.len() - 1
        };
        self.update_scroll();
        EditorAction::Changed
    }

    fn handle_picker_event(&mut self, value: Event) -> (action: EditorAction)
        requires
            old(self)@.wf(),
        ensures
            (final(self)@, action) == old(self)@.picker_step(value),
            final(self)@.wf(),
    {
        if value == EVENT_UP {
            self.picker_row = if self.picker_row == 0 {
                7
            } else {
                self.picker_row - 1
            };
            EditorAction::Changed
        } else if value == EVENT_DOWN {
            self.picker_row = (self.picker_row + 1) % 8;
            EditorAction::Changed
        } else if value == EVENT_LEFT || value == EVENT_RIGHT {
            self.picker_column = 1 - self.picker_column;
            EditorAction::Changed
        } else if value == EVENT_EXE {
            let template = self.selected_function_template();
            self.picker_open = false;
            self.insert_template_action(template)
        } else if value == EVENT_BACK {
            self.picker_open = false;
            EditorAction::Changed
        } else if value == EVENT_OK {
            self.picker_open = false;
            EditorAction::FocusTabs
        } else {
            EditorAction::Unchanged
        }
    }

    /// Maps a semantic calculator event to an edit or application intent.
    ///
    /// Function keys insert complete templates and put the cursor inside the
    /// parentheses; Toolbox opens the picker, which then owns arrows, EXE,
    /// Back and OK until it closes.
    pub fn handle_event(&mut self, value: Event) -> (action: EditorAction)
        requires
            old(self)@.wf(),
        ensures
            (final(self)@, action) == old(self)@.step(value),
            final(self)@.wf(),
    {
        if self.picker_open {
            return self.handle_picker_event(value);
        }
        if value == EVENT_LEFT {
            if self.move_left() { EditorAction::Changed } else { EditorAction::Unchanged }
        } else if value == EVENT_RIGHT {
            if self.move_right() { EditorAction::Changed } else { EditorAction::Unchanged }
        } else if value == EVENT_SHIFT_LEFT {
            if self.move_to_start() { EditorAction::Changed } else { EditorAction::Unchanged }
        } else if value == EVENT_SHIFT_RIGHT {
            if self.move_to_end() { EditorAction::Changed } else { EditorAction::Unchanged }
        } else if value == EVENT_OK {
            EditorAction::FocusTabs
        } else if value == EVENT_BACK {
            EditorAction::Cancel
        } else if value == EVENT_BACKSPACE {
            if self.backspace() { EditorAction::Changed } else { EditorAction::Unchanged }
        } else if value == EVENT_CLEAR {
            if self.clear() { EditorAction::Changed } else { EditorAction::Unchanged }
        } else if value == EVENT_EXE {
            EditorAction::Submit
        } else if value == EVENT_TOOLBOX {
            self.picker_open = true;
            self.picker_column = 0;
            self.picker_row = 0;
            EditorAction::Changed
        } else if value == EVENT_SINE {
            self.insert_template_action(FunctionTemplate::Sin)
        } else if value == EVENT_COSINE {
            self.insert_template_action(FunctionTemplate::Cos)
        } else if value == EVENT_TANGENT {
            self.insert_template_action(FunctionTemplate::Tan)
        } else if value == EVENT_SQRT {
            self.insert_template_action(FunctionTemplate::Sqrt)
        } else {
            proof {
                lemma_event_text_ascii(value);
            }
            match insertion_text(value) {
                Some(bytes) => self.insert_action(bytes.as_slice()),
                None => EditorAction::Unchanged,
            }
        }
    }
}

/// Bytes inserted by a plain character event.
fn insertion_text(value: Event) -> (text: Option<Vec<u8>>)
    ensures
        text is Some <==> event_text(value) is Some,
        text is Some ==> text.unwrap()@ == event_text(value).unwrap(),
{
    if value == EVENT_XNT {
        Some(vec![120u8])
    } else if value == EVENT_SQUARE {
        Some(vec![94u8, 50])
    } else if value == EVENT_POWER {
        Some(vec![94u8])
    } else if value == EVENT_LEFT_PARENTHESIS {
        Some(vec![40u8])
    } else if value == EVENT_RIGHT_PARENTHESIS {
        Some(vec![41u8])
    } else if value == EVENT_MULTIPLICATION {
        Some(vec![42u8])
    } else if value == EVENT_DIVISION {
        Some(vec![47u8])
    } else if value == EVENT_PLUS {
        Some(vec![43u8])
    } else if value == EVENT_MINUS {
        Some(vec![45u8])
    } else if value == EVENT_DOT {
        Some(vec![46u8])
    } else if value == EVENT_COMMA {
        Some(vec![44u8])
    } else if value == EVENT_EE {
        Some(vec![101u8])
    } else if value == EVENT_SPACE {
        Some(vec![32u8])
    } else if value == EVENT_ZERO {
        Some(vec![48u8])
    } else if value == EVENT_ONE {
        Some(vec![49u8])
    } else if value == EVENT_TWO {
        Some(vec![50u8])
    } else if value == EVENT_THREE {
        Some(vec![51u8])
    } else if value == EVENT_FOUR {
        Some(vec![52u8])
    } else if value == EVENT_FIVE {
        Some(vec![53u8])
    } else if value == EVENT_SIX {
        Some(vec![54u8])
    } else if value == EVENT_SEVEN {
        Some(vec![55u8])
    } else if value == EVENT_EIGHT {
        Some(vec![56u8])
    } else if value == EVENT_NINE {
        Some(vec![57u8])
    } else {
        match lowercase_letter(value) {
            Some(letter) => Some(vec![letter]),
            None => None,
        }
    }
}

} // verus!
