//! Plain-data view of the calculator firmware's input and display vocabulary:
//! raw physical-key bit masks, semantic event identifiers, and the small
//! `#[repr(C)]`-shaped value types used by the display layer.
//!
//! Raw key state is a 64-bit mask where bit `k` is one while physical key `k`
//! is held. Semantic events are 16-bit identifiers produced by the firmware's
//! modifier-aware event queue.
use vstd::prelude::*;

verus! {

/// One firmware-compatible RGB565 pixel.
#[derive(Clone, Copy, Debug, PartialEq, Eq, Structural)]
pub struct Color {
    /// Packed 16-bit red/green/blue value.
    pub rgb565: u16,
}

/// Firmware display rectangle with top-left origin and unsigned dimensions.
#[derive(Clone, Copy, Debug, PartialEq, Eq, Structural)]
pub struct Rect {
    pub x: u16,
    pub y: u16,
    pub width: u16,
    pub height: u16,
}

/// Firmware display point in top-left-origin screen coordinates.
#[derive(Clone, Copy, Debug, PartialEq, Eq, Structural)]
pub struct Point {
    pub x: u16,
    pub y: u16,
}

/// Bit mask where bit `k` is one while physical key `k` is held.
pub type KeyState = u64;

/// Physical key numbers of the keyboard matrix.
pub const KEY_LEFT: u8 = 0;
pub const KEY_UP: u8 = 1;
pub const KEY_DOWN: u8 = 2;
pub const KEY_RIGHT: u8 = 3;
pub const KEY_OK: u8 = 4;
pub const KEY_BACK: u8 = 5;
pub const KEY_SHIFT: u8 = 12;
pub const KEY_ALPHA: u8 = 13;
pub const KEY_BACKSPACE: u8 = 17;
pub const KEY_PLUS: u8 = 45;
pub const KEY_MINUS: u8 = 46;
pub const KEY_EXE: u8 = 52;

/// Whether bit `key` of `state` is set; keys beyond the 64-bit mask are never down.
pub open spec fn spec_key_down(state: u64, key: u8) -> bool {
    key < 64 && (state >> key) & 1u64 == 1u64
}

/// Bounds-checked test for one physical-key bit.
pub fn key_down(state: KeyState, key: u8) -> (down: bool)
    ensures
        down == spec_key_down(state, key),
{
    if key < 64 {
        let bit = (state >> key) & 1;
        assert(bit != 0u64 <==> bit == 1u64) by (bit_vector)
            requires
                bit == (state >> key) & 1u64,
        ;
        bit != 0
    } else {
        false
    }
}

/// Semantic firmware event identifier.
pub type Event = u16;

pub const EVENT_LEFT: Event = 0;
pub const EVENT_UP: Event = 1;
pub const EVENT_DOWN: Event = 2;
pub const EVENT_RIGHT: Event = 3;
pub const EVENT_OK: Event = 4;
pub const EVENT_BACK: Event = 5;
pub const EVENT_SHIFT: Event = 12;
pub const EVENT_ALPHA: Event = 13;
pub const EVENT_XNT: Event = 14;
pub const EVENT_TOOLBOX: Event = 16;
pub const EVENT_BACKSPACE: Event = 17;
pub const EVENT_COMMA: Event = 22;
pub const EVENT_POWER: Event = 23;
pub const EVENT_SINE: Event = 24;
pub const EVENT_COSINE: Event = 25;
pub const EVENT_TANGENT: Event = 26;
pub const EVENT_SQRT: Event = 28;
pub const EVENT_SQUARE: Event = 29;
pub const EVENT_SEVEN: Event = 30;
pub const EVENT_EIGHT: Event = 31;
pub const EVENT_NINE: Event = 32;
pub const EVENT_LEFT_PARENTHESIS: Event = 33;
pub const EVENT_RIGHT_PARENTHESIS: Event = 34;
pub const EVENT_FOUR: Event = 36;
pub const EVENT_FIVE: Event = 37;
pub const EVENT_SIX: Event = 38;
pub const EVENT_MULTIPLICATION: Event = 39;
pub const EVENT_DIVISION: Event = 40;
pub const EVENT_ONE: Event = 42;
pub const EVENT_TWO: Event = 43;
pub const EVENT_THREE: Event = 44;
pub const EVENT_PLUS: Event = 45;
pub const EVENT_MINUS: Event = 46;
pub const EVENT_ZERO: Event = 48;
pub const EVENT_DOT: Event = 49;
pub const EVENT_EE: Event = 50;
pub const EVENT_EXE: Event = 52;
pub const EVENT_SHIFT_LEFT: Event = 54;
pub const EVENT_SHIFT_RIGHT: Event = 57;
pub const EVENT_CLEAR: Event = 71;
pub const EVENT_SPACE: Event = 154;
/// Queue identifier meaning that no event arrived before the timeout.
pub const EVENT_NONE: Event = 216;
/// Queue identifier meaning that the firmware reported an idle tick.
pub const EVENT_IDLE: Event = 223;

/// Letter produced by an Alpha-generated event, as a lowercase ASCII byte.
///
/// Both the lowercase (126..) and uppercase (180..) event ranges map to the
/// same lowercase letters. Each range skips two identifiers (after `q` and
/// after `v`), so three arithmetic runs describe it exactly.
pub open spec fn spec_lowercase_letter(value: u16) -> Option<u8> {
    let base: int = if 126 <= value <= 153 {
        126
    } else if 180 <= value <= 207 {
        180
    } else {
        -1
    };
    if base < 0 {
        None
    } else {
        let offset = value - base;
        if 0 <= offset <= 16 {
            Some((97 + offset) as u8)
        } else if 18 <= offset <= 22 {
            Some((97 + offset - 1) as u8)
        } else if 24 <= offset <= 27 {
            Some((97 + offset - 2) as u8)
        } else {
            None
        }
    }
}

/// Converts supported Alpha-generated upper/lower letter events to the
/// editor's lowercase ASCII expression language.
pub fn lowercase_letter(value: Event) -> (letter: Option<u8>)
    ensures
        letter == spec_lowercase_letter(value),
{
    match value {
        126 => Some(97u8),
        127 => Some(98u8),
        128 => Some(99u8),
        129 => Some(100u8),
        130 => Some(101u8),
        131 => Some(102u8),
        132 => Some(103u8),
        133 => Some(104u8),
        134 => Some(105u8),
        135 => Some(106u8),
        136 => Some(107u8),
        137 => Some(108u8),
        138 => Some(109u8),
        139 => Some(110u8),
        140 => Some(111u8),
        141 => Some(112u8),
        142 => Some(113u8),
        144 => Some(114u8),
        145 => Some(115u8),
        146 => Some(116u8),
        147 => Some(117u8),
        148 => Some(118u8),
        150 => Some(119u8),
        151 => Some(120u8),
        152 => Some(121u8),
        153 => Some(122u8),
        180 => Some(97u8),
        181 => Some(98u8),
        182 => Some(99u8),
        183 => Some(100u8),
        184 => Some(101u8),
        185 => Some(102u8),
        186 => Some(103u8),
        187 => Some(104u8),
        188 => Some(105u8),
        189 => Some(106u8),
        190 => Some(107u8),
        191 => Some(108u8),
        192 => Some(109u8),
        193 => Some(110u8),
        194 => Some(111u8),
        195 => Some(112u8),
        196 => Some(113u8),
        198 => Some(114u8),
        199 => Some(115u8),
        200 => Some(116u8),
        201 => Some(117u8),
        202 => Some(118u8),
        204 => Some(119u8),
        205 => Some(120u8),
        206 => Some(121u8),
        207 => Some(122u8),
        _ => None,
    }
}

/// Raw keys other than Shift and Alpha.
pub open spec fn non_modifier_keys(keys: u64) -> u64 {
    keys & !((1u64 << KEY_SHIFT) | (1u64 << KEY_ALPHA))
}

/// Whether the first semantic event read after a key press should be
/// skipped for the next one: it is a bare Shift or Alpha event while some
/// other key is held, so the event that key produced comes next.
pub fn skips_modifier_event(first: Option<Event>, keys: KeyState) -> (skip: bool)
    ensures
        skip == ((first == Some(EVENT_SHIFT) || first == Some(EVENT_ALPHA)) && non_modifier_keys(keys)
            != 0),
{
    let modifier_mask: u64 = (1u64 << KEY_SHIFT) | (1u64 << KEY_ALPHA);
    let modifier = match first {
        Some(event) => event == EVENT_SHIFT || event == EVENT_ALPHA,
        None => false,
    };
    modifier && keys & !modifier_mask != 0
}

} // verus!
