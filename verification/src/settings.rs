//! Settings menu, Appearance and transactional Custom Color pages, and the
//! shared fixed-capacity numeric field used for domain bounds and color
//! channels.
//!
//! This module owns only Settings interaction state. Every operation returns
//! a [`SettingsAction`] describing the smallest change the application must
//! apply. A Custom Color draft never touches the active options before Apply,
//! and a numeric domain draft is only handed to the application (as
//! [`SettingsAction::DomainDraftReady`]) once it is syntactically a number;
//! the application converts it, validates the resulting domain, and reports
//! back through [`SettingsState::finish_domain_edit`].
use vstd::prelude::*;
use crate::graph::{other_mode, GraphOptions, LightingPreset, Rgb888, SurfacePalette};
use crate::keys::{
    Event, EVENT_BACK, EVENT_BACKSPACE, EVENT_CLEAR, EVENT_DOT, EVENT_EE, EVENT_EIGHT, EVENT_EXE,
    EVENT_FIVE, EVENT_FOUR, EVENT_LEFT, EVENT_MINUS, EVENT_NINE, EVENT_ONE, EVENT_PLUS,
    EVENT_RIGHT, EVENT_SEVEN, EVENT_SHIFT_LEFT, EVENT_SHIFT_RIGHT, EVENT_SIX, EVENT_THREE,
    EVENT_TWO, EVENT_ZERO,
};
use crate::number::{digits_value, is_digit, is_signed_literal, signed_literal};
use crate::surface::DomainError;
use crate::text::{
    decimal, decimal_length, pow10, push_decimal, push_six_places, six_places, trim_trailing_zeros,
    trim_zeros_after,
};

verus! {

/// Maximum source bytes in one numeric field.
pub const NUMERIC_CAPACITY: usize = 24;
/// Number of fixed-width characters visible in the Settings value field.
pub const NUMERIC_VISIBLE_CHARACTERS: usize = 20;
/// Number of selectable rows on the main Settings page.
pub const SETTINGS_ITEM_COUNT: usize = 8;
/// Number of editable bounds on the Domain page.
pub const DOMAIN_FIELD_COUNT: usize = 4;
/// Number of bounded choices on the Appearance page.
pub const APPEARANCE_ITEM_COUNT: usize = 4;
/// Three channels plus an explicit transactional Apply row.
pub const CUSTOM_COLOR_ITEM_COUNT: usize = 4;
/// Coarse channel adjustment used by Left/Right outside the numeric editor.
pub const CUSTOM_COLOR_STEP: u8 = 8;

/// Settings subview currently displayed inside the Settings tab.
#[derive(Clone, Copy, Debug, PartialEq, Eq, Structural)]
pub enum SettingsPage {
    Main,
    Domain,
    Appearance,
    CustomColor,
}

/// Rows in the transactional Custom RGB editor.
#[derive(Clone, Copy, Debug, PartialEq, Eq, Structural)]
pub enum CustomColorItem {
    Red,
    Green,
    Blue,
    Apply,
}

/// Custom Color row at an index; indices past the last row select Apply.
pub open spec fn custom_color_item_at(index: int) -> CustomColorItem {
    if index == 0 {
        CustomColorItem::Red
    } else if index == 1 {
        CustomColorItem::Green
    } else if index == 2 {
        CustomColorItem::Blue
    } else {
        CustomColorItem::Apply
    }
}

impl CustomColorItem {
    /// Stable zero-based row index.
    pub fn index(self) -> (index: usize)
        ensures
            index < CUSTOM_COLOR_ITEM_COUNT,
            custom_color_item_at(index as int) == self,
    {
        match self {
            CustomColorItem::Red => 0,
            CustomColorItem::Green => 1,
            CustomColorItem::Blue => 2,
            CustomColorItem::Apply => 3,
        }
    }

    /// Row for an index; values past the last row clamp to Apply.
    pub fn from_index(index: u8) -> (item: CustomColorItem)
        ensures
            item == custom_color_item_at(index as int),
    {
        match index {
            0 => CustomColorItem::Red,
            1 => CustomColorItem::Green,
            2 => CustomColorItem::Blue,
            _ => CustomColorItem::Apply,
        }
    }
}

/// Rows in the Solid appearance submenu.
#[derive(Clone, Copy, Debug, PartialEq, Eq, Structural)]
pub enum AppearanceItem {
    Lighting,
    SurfaceColor,
    Resolution,
    AutoRotate,
}

/// Appearance row at an index; indices past the last row select Auto rotate.
pub open spec fn appearance_item_at(index: int) -> AppearanceItem {
    if index == 0 {
        AppearanceItem::Lighting
    } else if index == 1 {
        AppearanceItem::SurfaceColor
    } else if index == 2 {
        AppearanceItem::Resolution
    } else {
        AppearanceItem::AutoRotate
    }
}

impl AppearanceItem {
    /// Stable zero-based row index.
    pub fn index(self) -> (index: usize)
        ensures
            index < APPEARANCE_ITEM_COUNT,
            appearance_item_at(index as int) == self,
    {
        match self {
            AppearanceItem::Lighting => 0,
            AppearanceItem::SurfaceColor => 1,
            AppearanceItem::Resolution => 2,
            AppearanceItem::AutoRotate => 3,
        }
    }

    /// Row for an index; values past the last row clamp to Auto rotate.
    pub fn from_index(index: u8) -> (item: AppearanceItem)
        ensures
            item == appearance_item_at(index as int),
    {
        match index {
            0 => AppearanceItem::Lighting,
            1 => AppearanceItem::SurfaceColor,
            2 => AppearanceItem::Resolution,
            _ => AppearanceItem::AutoRotate,
        }
    }
}

/// Rows in the compact main Settings menu.
#[derive(Clone, Copy, Debug, PartialEq, Eq, Structural)]
pub enum SettingsItem {
    RenderingMode,
    GroundGrid,
    Axes,
    Ticks,
    Labels,
    Domain,
    ResetCamera,
    Performance,
}

/// Main-menu row at an index; indices past the last row clamp to ResetCamera.
pub open spec fn settings_item_at(index: int) -> SettingsItem {
    if index == 0 {
        SettingsItem::RenderingMode
    } else if index == 1 {
        SettingsItem::GroundGrid
    } else if index == 2 {
        SettingsItem::Axes
    } else if index == 3 {
        SettingsItem::Ticks
    } else if index == 4 {
        SettingsItem::Labels
    } else if index == 5 {
        SettingsItem::Domain
    } else if index == 6 {
        SettingsItem::ResetCamera
    } else if index == 7 {
        SettingsItem::Performance
    } else {
        SettingsItem::ResetCamera
    }
}

impl SettingsItem {
    /// Stable zero-based row index used by the UI.
    pub fn index(self) -> (index: usize)
        ensures
            index < SETTINGS_ITEM_COUNT,
            settings_item_at(index as int) == self,
    {
        match self {
            SettingsItem::RenderingMode => 0,
            SettingsItem::GroundGrid => 1,
            SettingsItem::Axes => 2,
            SettingsItem::Ticks => 3,
            SettingsItem::Labels => 4,
            SettingsItem::Domain => 5,
            SettingsItem::ResetCamera => 6,
            SettingsItem::Performance => 7,
        }
    }

    /// Item for a row index; values past the last row clamp to ResetCamera.
    pub fn from_index(index: usize) -> (item: SettingsItem)
        ensures
            item == settings_item_at(index as int),
    {
        match index {
            0 => SettingsItem::RenderingMode,
            1 => SettingsItem::GroundGrid,
            2 => SettingsItem::Axes,
            3 => SettingsItem::Ticks,
            4 => SettingsItem::Labels,
            5 => SettingsItem::Domain,
            6 => SettingsItem::ResetCamera,
            7 => SettingsItem::Performance,
            _ => SettingsItem::ResetCamera,
        }
    }
}

/// One editable component of the rectangular mathematical domain.
#[derive(Clone, Copy, Debug, PartialEq, Eq, Structural)]
pub enum DomainField {
    XMin,
    XMax,
    YMin,
    YMax,
}

/// Domain bound at an index; indices past the last row select Ymax.
pub open spec fn domain_field_at(index: int) -> DomainField {
    if index == 0 {
        DomainField::XMin
    } else if index == 1 {
        DomainField::XMax
    } else if index == 2 {
        DomainField::YMin
    } else {
        DomainField::YMax
    }
}

impl DomainField {
    /// Stable zero-based row index used by the Domain page.
    pub fn index(self) -> (index: usize)
        ensures
            index < DOMAIN_FIELD_COUNT,
            domain_field_at(index as int) == self,
    {
        match self {
            DomainField::XMin => 0,
            DomainField::XMax => 1,
            DomainField::YMin => 2,
            DomainField::YMax => 3,
        }
    }

    /// Field for a row index; values past the last row clamp to Ymax.
    pub fn from_index(index: usize) -> (field: DomainField)
        ensures
            field == domain_field_at(index as int),
    {
        match index {
            0 => DomainField::XMin,
            1 => DomainField::XMax,
            2 => DomainField::YMin,
            _ => DomainField::YMax,
        }
    }
}

/// User-facing failure retained while the numeric field remains active.
#[derive(Clone, Copy, Debug, PartialEq, Eq, Structural)]
pub enum NumericError {
    InvalidNumber,
    TooLong,
    Domain(DomainError),
    ColorOutOfRange,
}

/// Result for the application layer to translate into state changes.
#[derive(Clone, Copy, Debug, PartialEq, Eq, Structural)]
pub enum SettingsAction {
    /// No state or pixels changed.
    Unchanged,
    /// Settings content changed, but graph data did not.
    Redraw,
    /// `GraphOptions` changed; do not resample the mathematical surface.
    GraphChanged,
    /// Sampling density changed; the surface must be rebuilt before rendering.
    ResolutionChanged,
    /// Toggles the transient application camera animation state.
    AutoRotateChanged,
    /// The numeric draft is a well-formed number: the application must convert
    /// it, validate the candidate domain, and report through `finish_domain_edit`.
    DomainDraftReady,
    /// The application should restore its established default camera.
    ResetCamera,
    /// Back was pressed at the main Settings page; return to Graph content.
    LeaveSettings,
}

/// Display text of a bound: an optional `-`, the integer digits, and, when
/// the rounded fraction is not zero, a `.` and up to six fractional digits
/// with trailing zeros removed. A fraction that rounded up to a whole
/// million carries into the integer part (which saturates at `u32::MAX`).
pub open spec fn number_text_bytes(negative: bool, integer: u32, millionths: u32) -> Seq<u8> {
    let carry = millionths >= 1000000;
    let whole: nat = if carry {
        if integer == u32::MAX {
            integer as nat
        } else {
            (integer + 1) as nat
        }
    } else {
        integer as nat
    };
    let fraction: nat = if carry {
        (millionths - 1000000) as nat
    } else {
        millionths as nat
    };
    let sign: Seq<u8> = if negative {
        seq![45u8]
    } else {
        Seq::empty()
    };
    let tail: Seq<u8> = if fraction != 0 {
        seq![46u8] + trim_trailing_zeros(six_places(fraction))
    } else {
        Seq::empty()
    };
    sign + decimal(whole) + tail
}

/// Small NUL-terminated number text produced without formatting machinery.
pub struct NumberText {
    bytes: Vec<u8>,
}

impl View for NumberText {
    type V = Seq<u8>;

    /// The text, excluding the terminating NUL.
    closed spec fn view(&self) -> Seq<u8> {
        self.bytes@.drop_last()
    }
}

impl NumberText {
    /// The stored bytes end with the terminator.
    pub closed spec fn wf(self) -> bool {
        self.bytes@.len() >= 1 && self.bytes@.last() == 0u8
    }

    /// Text for a finite bound given by its sign, integer part, and fraction
    /// rounded to millionths (at most one million).
    pub fn from_decimal(negative: bool, integer: u32, millionths: u32) -> (text: NumberText)
        requires
            millionths <= 1000000,
        ensures
            text@ == number_text_bytes(negative, integer, millionths),
            text@.len() <= NUMERIC_CAPACITY,
            text.wf(),
    {
        let mut whole = integer;
        let mut fraction = millionths;
        if fraction >= 1000000 {
            whole = whole.saturating_add(1);
            fraction = fraction - 1000000;
        }
        let mut bytes: Vec<u8> = Vec::new();
        if negative {
            bytes.push(45);
        }
        push_decimal(&mut bytes, whole);
        let ghost head = bytes@;
        if fraction != 0 {
            bytes.push(46);
            let fraction_start = bytes.len();
            push_six_places(&mut bytes, fraction);
            proof {
                assert(bytes@.take(fraction_start as int) =~= head.push(46u8));
                assert(bytes@.skip(fraction_start as int) =~= six_places(fraction as nat));
            }
            trim_zeros_after(&mut bytes, fraction_start);
            proof {
                assert(bytes@ =~= head + (seq![46u8] + trim_trailing_zeros(
                    six_places(fraction as nat),
                )));
            }
        }
        let ghost shown = bytes@;
        proof {
            crate::text::decimal_length(whole as nat);
            lemma_trim_shortens(six_places(fraction as nat));
            assert(shown =~= number_text_bytes(negative, integer, millionths));
        }
        bytes.push(0);
        proof {
            assert(bytes@.drop_last() =~= shown);
        }
        NumberText { bytes }
    }

    /// Text shown for a bound that is not a finite number: `?`.
    pub fn unknown() -> (text: NumberText)
        ensures
            text@ == seq![63u8],
            text.wf(),
    {
        let bytes = vec![63u8, 0];
        proof {
            assert(bytes@.drop_last() =~= seq![63u8]);
        }
        NumberText { bytes }
    }

    /// Bytes excluding the C terminator.
    pub fn as_bytes(&self) -> (bytes: &[u8])
        requires
            self.wf(),
        ensures
            bytes@ == self@,
    {
        vstd::slice::slice_subrange(self.bytes.as_slice(), 0, self.bytes.len() - 1)
    }

    /// NUL-terminated bytes for the firmware string routine.
    pub fn as_c_string(&self) -> (bytes: &[u8])
        requires
            self.wf(),
        ensures
            bytes@ == self@.push(0u8),
    {
        proof {
            assert(self.bytes@ =~= self@.push(0u8));
        }
        self.bytes.as_slice()
    }
}

proof fn lemma_trim_shortens(s: Seq<u8>)
    ensures
        trim_trailing_zeros(s).len() <= s.len(),
    decreases s.len(),
{
    if s.len() > 0 && s.last() == 48u8 {
        lemma_trim_shortens(s.drop_last());
    }
}

/// `text[start..]` reads as a decimal whose point (or end) is at `point`:
/// digits up to `point` without a leading zero, then either nothing or a
/// `.` and one to six fractional digits of which the last is not `0`,
/// together worth `total` millionths.
pub open spec fn reads_with_point_at(text: Seq<u8>, start: int, point: int, total: nat) -> bool {
    let n = text.len() as int;
    &&& 0 <= start < point <= n
    &&& forall|k: int| start <= k < point ==> is_digit(#[trigger] text[k])
    &&& point == start + 1 || text[start] != 48
    &&& if point == n {
        digits_value(text, start, point) * 1000000 == total
    } else {
        &&& text[point] == 46
        &&& point + 1 < n <= point + 7
        &&& forall|k: int| point < k < n ==> is_digit(#[trigger] text[k])
        &&& text[n - 1] != 48
        &&& digits_value(text, start, point) * 1000000 + digits_value(text, point + 1, n) * pow10(
            (point + 7 - n) as nat,
        ) == total
    }
}

/// `text` reads back as the number of `total` millionths, with a leading
/// `-` when `negative`.
pub open spec fn reads_as(text: Seq<u8>, negative: bool, total: nat) -> bool {
    &&& negative ==> text.len() > 0 && text[0] == 45
    &&& exists|point: int| #[trigger] reads_with_point_at(text, sign_length(negative), point, total)
}

/// Bytes taken by the sign: one for `-`, none otherwise.
pub open spec fn sign_length(negative: bool) -> int {
    if negative {
        1
    } else {
        0
    }
}

/// The shown text of a bound reads back as that bound: its integer digits
/// are the integer part and its fractional digits, zero-padded to six places
/// and with trailing zeros removed, are the millionths; `-0.05` shows as
/// `-0.05`, not `-0.5`. A fraction rounded up to a whole million carries into
/// the integer part, except that an integer part already at `u32::MAX` stays
/// there.
pub proof fn bound_text_reads_back(negative: bool, integer: u32, millionths: u32)
    requires
        millionths <= 1000000,
    ensures
        reads_as(
            number_text_bytes(negative, integer, millionths),
            negative,
            if integer == u32::MAX && millionths == 1000000 {
                integer as nat * 1000000
            } else {
                integer as nat * 1000000 + millionths as nat
            },
        ),
{
    let carry = millionths >= 1000000;
    let whole: nat = if carry {
        if integer == u32::MAX {
            integer as nat
        } else {
            (integer + 1) as nat
        }
    } else {
        integer as nat
    };
    let fraction: nat = if carry {
        (millionths - 1000000) as nat
    } else {
        millionths as nat
    };
    let total: nat = if integer == u32::MAX && millionths == 1000000 {
        integer as nat * 1000000
    } else {
        integer as nat * 1000000 + millionths as nat
    };
    let sign: Seq<u8> = if negative {
        seq![45u8]
    } else {
        Seq::empty()
    };
    let digits = decimal(whole);
    let text = number_text_bytes(negative, integer, millionths);
    let start = sign_length(negative);
    assert(start == sign.len());
    let point = start + digits.len();
    assert(negative ==> text[0] == 45);
    decimal_length(whole);
    lemma_decimal_value(whole);
    assert(text.subrange(start, point) =~= digits);
    lemma_digits_value_shift(text, digits, start, digits.len() as int);
    assert forall|k: int| start <= k < point implies is_digit(#[trigger] text[k]) by {
        assert(text[k] == digits[k - start]);
    }
    assert(text[start] == digits[0]);
    if fraction == 0 {
        assert(text =~= sign + digits);
        assert(reads_with_point_at(text, start, point, total));
    } else {
        let six = six_places(fraction);
        let shown = trim_trailing_zeros(six);
        lemma_six_places_value(fraction);
        lemma_trimmed_value(six);
        if shown.len() == 0 {
            let p = pow10((six.len() - shown.len()) as nat);
            assert(digits_value(shown, 0, 0) == 0);
            assert(digits_value(six, 0, 6) == 0 * p);
            assert(0 * p == 0) by (nonlinear_arith);
            assert(digits_value(six, 0, 6) == fraction);
        }
        assert(text =~= sign + digits + (seq![46u8] + shown));
        let n = text.len() as int;
        assert(n == point + 1 + shown.len());
        assert(text.subrange(point + 1, n) =~= shown);
        lemma_digits_value_shift(text, shown, point + 1, shown.len() as int);
        assert forall|k: int| point < k < n implies is_digit(#[trigger] text[k]) by {
            assert(text[k] == shown[k - point - 1]);
            assert(shown[k - point - 1] == six[k - point - 1]);
        }
        assert(text.subrange(point + 1, n)[shown.len() - 1] == text[n - 1]);
        assert(text[n - 1] == shown.last());
        assert(text[point] == 46);
        assert(shown.len() <= 6);
        assert(pow10(((point + 7 - n) as nat)) == pow10((six.len() - shown.len()) as nat));
        assert(!carry);
        assert(total == whole * 1000000 + fraction);
        assert(reads_with_point_at(text, start, point, total));
    }
}

/// Digit values depend only on the digits read: a copy of `x` placed at
/// `offset` reads as `x` does.
proof fn lemma_digits_value_shift(s: Seq<u8>, x: Seq<u8>, offset: int, k: int)
    requires
        0 <= offset,
        0 <= k <= x.len(),
        offset + x.len() <= s.len(),
        s.subrange(offset, offset + x.len()) == x,
    ensures
        digits_value(s, offset, offset + k) == digits_value(x, 0, k),
    decreases k,
{
    if k > 0 {
        lemma_digits_value_shift(s, x, offset, k - 1);
        assert(s.subrange(offset, offset + x.len())[k - 1] == s[offset + k - 1]);
    }
}

/// The decimal digits of `n` are digits and read back as `n`.
proof fn lemma_decimal_value(n: nat)
    ensures
        digits_value(decimal(n), 0, decimal(n).len() as int) == n,
        forall|k: int| 0 <= k < decimal(n).len() ==> is_digit(#[trigger] decimal(n)[k]),
        decimal(n).len() > 1 ==> decimal(n)[0] != 48,
    decreases n,
{
    reveal_with_fuel(digits_value, 2);
    if n >= 10 {
        let head = decimal(n / 10);
        lemma_decimal_value(n / 10);
        let d = decimal(n);
        assert(d == head.push((48 + n % 10) as u8));
        assert(d.subrange(0, head.len() as int) =~= head);
        lemma_digits_value_shift(d, head, 0, head.len() as int);
        assert(d[head.len() as int] == (48 + n % 10) as u8);
        assert(digits_value(d, 0, d.len() as int) == (n / 10) * 10 + n % 10);
        assert forall|k: int| 0 <= k < d.len() implies is_digit(#[trigger] d[k]) by {
            if k < head.len() {
                assert(d[k] == head[k]);
            }
        }
        decimal_length(n / 10);
        assert(d[0] == head[0]);
        if n / 10 >= 10 {
            decimal_length(n / 10 / 10);
            assert(head.len() > 1);
        }
    }
}

/// Six zero-padded places read back as the millionths they show.
proof fn lemma_six_places_value(millionths: nat)
    requires
        millionths < 1000000,
    ensures
        digits_value(six_places(millionths), 0, 6) == millionths,
        forall|k: int| 0 <= k < 6 ==> is_digit(#[trigger] six_places(millionths)[k]),
{
    let s = six_places(millionths);
    let f = millionths;
    reveal_with_fuel(digits_value, 7);
    assert(digits_value(s, 0, 1) == f / 100000);
    assert(digits_value(s, 0, 2) == f / 10000);
    assert(digits_value(s, 0, 3) == f / 1000);
    assert(digits_value(s, 0, 4) == f / 100);
    assert(digits_value(s, 0, 5) == f / 10);
}

/// Removing trailing zeros keeps a prefix that reads as the original
/// divided by ten for each zero removed, and leaves no trailing zero.
proof fn lemma_trimmed_value(s: Seq<u8>)
    requires
        forall|k: int| 0 <= k < s.len() ==> is_digit(#[trigger] s[k]),
    ensures
        trim_trailing_zeros(s).len() <= s.len(),
        trim_trailing_zeros(s) == s.take(trim_trailing_zeros(s).len() as int),
        digits_value(trim_trailing_zeros(s), 0, trim_trailing_zeros(s).len() as int) * pow10(
            (s.len() - trim_trailing_zeros(s).len()) as nat,
        ) == digits_value(s, 0, s.len() as int),
        trim_trailing_zeros(s).len() > 0 ==> trim_trailing_zeros(s).last() != 48,
    decreases s.len(),
{
    let t = trim_trailing_zeros(s);
    if s.len() > 0 && s.last() == 48u8 {
        let rest = s.drop_last();
        lemma_trimmed_value(rest);
        assert(s.subrange(0, rest.len() as int) =~= rest);
        lemma_digits_value_shift(s, rest, 0, rest.len() as int);
        assert(rest.take(t.len() as int) =~= s.take(t.len() as int));
        let a = digits_value(t, 0, t.len() as int);
        let p = pow10((rest.len() - t.len()) as nat);
        assert(((s.len() - t.len()) as nat) == ((rest.len() - t.len()) as nat) + 1);
        assert(pow10((s.len() - t.len()) as nat) == 10 * p);
        assert(a * p == digits_value(rest, 0, rest.len() as int));
        assert(digits_value(s, 0, s.len() as int) == digits_value(s, 0, rest.len() as int) * 10);
        assert(t == trim_trailing_zeros(rest));
        assert(a * (10 * p) == (a * p) * 10) by (nonlinear_arith);
        assert(a * pow10((s.len() - t.len()) as nat) == digits_value(s, 0, s.len() as int));
    } else {
        assert(s.take(s.len() as int) =~= s);
        assert(t == s);
        assert(((s.len() - t.len()) as nat) == 0nat);
        assert(pow10(0) == 1);
        assert(digits_value(t, 0, t.len() as int) * pow10((s.len() - t.len()) as nat)
            == digits_value(s, 0, s.len() as int));
    }
}

/// Abstract state of the numeric field.
pub struct NumericModel {
    pub text: Seq<u8>,
    pub cursor: nat,
    pub scroll: nat,
    pub error: Option<NumericError>,
    /// Whether the text was edited since it was loaded.
    pub modified: bool,
}

/// First visible byte after moving the numeric cursor.
pub open spec fn numeric_scroll_for(cursor: nat, scroll: nat) -> nat {
    if cursor < scroll {
        cursor
    } else if cursor > scroll + NUMERIC_VISIBLE_CHARACTERS {
        (cursor - NUMERIC_VISIBLE_CHARACTERS) as nat
    } else {
        scroll
    }
}

impl NumericModel {
    pub open spec fn wf(self) -> bool {
        &&& self.text.len() <= NUMERIC_CAPACITY
        &&& self.cursor <= self.text.len()
        &&& self.scroll <= self.cursor <= self.scroll + NUMERIC_VISIBLE_CHARACTERS
    }

    /// The empty, unmodified, error-free field.
    pub open spec fn empty() -> NumericModel {
        NumericModel { text: Seq::empty(), cursor: 0, scroll: 0, error: None, modified: false }
    }

    pub open spec fn with_cursor(self, cursor: nat) -> NumericModel {
        NumericModel { cursor, scroll: numeric_scroll_for(cursor, self.scroll), ..self }
    }

    /// Whether `bytes` is non-empty and still fits.
    pub open spec fn can_insert(self, bytes: Seq<u8>) -> bool {
        bytes.len() > 0 && self.text.len() + bytes.len() <= NUMERIC_CAPACITY
    }

    pub open spec fn inserted(self, bytes: Seq<u8>) -> NumericModel {
        NumericModel {
            text: self.text.take(self.cursor as int) + bytes + self.text.skip(self.cursor as int),
            error: None,
            modified: true,
            ..self
        }.with_cursor(self.cursor + bytes.len())
    }

    pub open spec fn backspaced(self) -> NumericModel {
        NumericModel {
            text: self.text.remove(self.cursor - 1),
            error: None,
            modified: true,
            ..self
        }.with_cursor((self.cursor - 1) as nat)
    }

    pub open spec fn cleared(self) -> NumericModel {
        NumericModel { text: Seq::empty(), cursor: 0, scroll: 0, error: None, modified: true }
    }

    /// A freshly loaded display text: the field holds exactly `text` (or
    /// stays empty when it is empty or too long), unmodified.
    pub open spec fn loaded(text: Seq<u8>) -> NumericModel {
        if NumericModel::empty().can_insert(text) {
            NumericModel { modified: false, ..NumericModel::empty().inserted(text) }
        } else {
            NumericModel::empty()
        }
    }
}

/// Abstract Settings state.
pub struct SettingsModel {
    pub page: SettingsPage,
    pub menu_index: nat,
    pub domain_index: nat,
    pub appearance_index: nat,
    pub custom_color_index: nat,
    pub custom_color_draft: Rgb888,
    pub editing: bool,
    pub numeric: NumericModel,
}

/// `value + step`, capped at 255.
pub open spec fn channel_up(value: u8) -> u8 {
    if value + CUSTOM_COLOR_STEP > 255 {
        255u8
    } else {
        (value + CUSTOM_COLOR_STEP) as u8
    }
}

/// `value - step`, floored at 0.
pub open spec fn channel_down(value: u8) -> u8 {
    if value < CUSTOM_COLOR_STEP {
        0u8
    } else {
        (value - CUSTOM_COLOR_STEP) as u8
    }
}

/// Value of a whole field of decimal digits when it is a color channel:
/// one or more digits whose value is at most 255 (leading zeros allowed).
pub open spec fn color_channel_value(source: Seq<u8>) -> Option<u8> {
    if source.len() > 0 && (forall|i: int| 0 <= i < source.len() ==> crate::number::is_digit(
        #[trigger] source[i],
    )) && crate::number::digits_value(source, 0, source.len() as int) <= 255 {
        Some(crate::number::digits_value(source, 0, source.len() as int) as u8)
    } else {
        None
    }
}

/// Bytes a numeric-field event inserts on the given page: digits anywhere,
/// and `.`, `-`, `+`, `e` only in domain bounds.
pub open spec fn numeric_event_text(page: SettingsPage, value: u16) -> Option<Seq<u8>> {
    if value == EVENT_ZERO {
        Some(seq![48u8])
    } else if value == EVENT_ONE {
        Some(seq![49u8])
    } else if value == EVENT_TWO {
        Some(seq![50u8])
    } else if value == EVENT_THREE {
        Some(seq![51u8])
    } else if value == EVENT_FOUR {
        Some(seq![52u8])
    } else if value == EVENT_FIVE {
        Some(seq![53u8])
    } else if value == EVENT_SIX {
        Some(seq![54u8])
    } else if value == EVENT_SEVEN {
        Some(seq![55u8])
    } else if value == EVENT_EIGHT {
        Some(seq![56u8])
    } else if value == EVENT_NINE {
        Some(seq![57u8])
    } else if page != SettingsPage::CustomColor && value == EVENT_DOT {
        Some(seq![46u8])
    } else if page != SettingsPage::CustomColor && value == EVENT_MINUS {
        Some(seq![45u8])
    } else if page != SettingsPage::CustomColor && value == EVENT_PLUS {
        Some(seq![43u8])
    } else if page != SettingsPage::CustomColor && value == EVENT_EE {
        Some(seq![101u8])
    } else {
        None
    }
}

impl SettingsModel {
    pub open spec fn wf(self) -> bool {
        &&& self.menu_index < SETTINGS_ITEM_COUNT
        &&& self.domain_index < DOMAIN_FIELD_COUNT
        &&& self.appearance_index < APPEARANCE_ITEM_COUNT
        &&& self.custom_color_index < CUSTOM_COLOR_ITEM_COUNT
        &&& self.numeric.wf()
    }

    pub open spec fn initial() -> SettingsModel {
        SettingsModel {
            page: SettingsPage::Main,
            menu_index: 0,
            domain_index: 0,
            appearance_index: 0,
            custom_color_index: 0,
            custom_color_draft: Rgb888::spec_default_custom(),
            editing: false,
            numeric: NumericModel::empty(),
        }
    }

    pub open spec fn item(self) -> SettingsItem {
        settings_item_at(self.menu_index as int)
    }

    pub open spec fn appearance_item(self) -> AppearanceItem {
        appearance_item_at(self.appearance_index as int)
    }

    pub open spec fn custom_item(self) -> CustomColorItem {
        custom_color_item_at(self.custom_color_index as int)
    }

    /// Draft value of the selected channel (zero on the Apply row).
    pub open spec fn channel(self) -> u8 {
        match self.custom_item() {
            CustomColorItem::Red => self.custom_color_draft.red,
            CustomColorItem::Green => self.custom_color_draft.green,
            CustomColorItem::Blue => self.custom_color_draft.blue,
            CustomColorItem::Apply => 0,
        }
    }

    /// Draft with the selected channel replaced (unchanged on the Apply row).
    pub open spec fn with_channel(self, value: u8) -> SettingsModel {
        let draft = self.custom_color_draft;
        let updated = match self.custom_item() {
            CustomColorItem::Red => Rgb888 { red: value, ..draft },
            CustomColorItem::Green => Rgb888 { green: value, ..draft },
            CustomColorItem::Blue => Rgb888 { blue: value, ..draft },
            CustomColorItem::Apply => draft,
        };
        SettingsModel { custom_color_draft: updated, ..self }
    }

    /// Leaves numeric editing and empties the field.
    pub open spec fn closed_field(self) -> SettingsModel {
        SettingsModel { editing: false, numeric: NumericModel::empty(), ..self }
    }

    pub open spec fn with_error(self, error: NumericError) -> SettingsModel {
        SettingsModel { numeric: NumericModel { error: Some(error), ..self.numeric }, ..self }
    }

    /// Up arrow: previous row of the current page, without wrapping.
    pub open spec fn select_previous(self) -> (SettingsModel, SettingsAction) {
        if self.editing {
            (self, SettingsAction::Unchanged)
        } else {
            let index = match self.page {
                SettingsPage::Main => self.menu_index,
                SettingsPage::Domain => self.domain_index,
                SettingsPage::Appearance => self.appearance_index,
                SettingsPage::CustomColor => self.custom_color_index,
            };
            if index == 0 {
                (self, SettingsAction::Unchanged)
            } else {
                let i = (index - 1) as nat;
                (match self.page {
                    SettingsPage::Main => SettingsModel { menu_index: i, ..self },
                    SettingsPage::Domain => SettingsModel { domain_index: i, ..self },
                    SettingsPage::Appearance => SettingsModel { appearance_index: i, ..self },
                    SettingsPage::CustomColor => SettingsModel { custom_color_index: i, ..self },
                }, SettingsAction::Redraw)
            }
        }
    }

    /// Down arrow: next row of the current page, without wrapping.
    pub open spec fn select_next(self) -> (SettingsModel, SettingsAction) {
        if self.editing {
            (self, SettingsAction::Unchanged)
        } else {
            let (index, count) = match self.page {
                SettingsPage::Main => (self.menu_index, SETTINGS_ITEM_COUNT as nat),
                SettingsPage::Domain => (self.domain_index, DOMAIN_FIELD_COUNT as nat),
                SettingsPage::Appearance => (self.appearance_index, APPEARANCE_ITEM_COUNT as nat),
                SettingsPage::CustomColor => (
                    self.custom_color_index,
                    CUSTOM_COLOR_ITEM_COUNT as nat,
                ),
            };
            if index + 1 >= count {
                (self, SettingsAction::Unchanged)
            } else {
                let i = index + 1;
                (match self.page {
                    SettingsPage::Main => SettingsModel { menu_index: i, ..self },
                    SettingsPage::Domain => SettingsModel { domain_index: i, ..self },
                    SettingsPage::Appearance => SettingsModel { appearance_index: i, ..self },
                    SettingsPage::CustomColor => SettingsModel { custom_color_index: i, ..self },
                }, SettingsAction::Redraw)
            }
        }
    }

    /// Left/Right on the Appearance page: cycle the selected choice.
    pub open spec fn adjust_appearance(self, options: GraphOptions, right: bool) -> (
        GraphOptions,
        SettingsAction,
    ) {
        match self.appearance_item() {
            AppearanceItem::Lighting => (GraphOptions {
                lighting: LightingPreset::at(
                    options.lighting.spec_index() + if right { 1int } else { 2int },
                ),
                ..options
            }, SettingsAction::GraphChanged),
            AppearanceItem::SurfaceColor => (GraphOptions {
                surface_palette: SurfacePalette::at(
                    options.surface_palette.spec_index() + if right { 1int } else { 9int },
                ),
                ..options
            }, SettingsAction::GraphChanged),
            AppearanceItem::Resolution => (GraphOptions {
                resolution: if right {
                    options.resolution.spec_next()
                } else {
                    options.resolution.spec_previous()
                },
                ..options
            }, SettingsAction::ResolutionChanged),
            AppearanceItem::AutoRotate => (options, SettingsAction::AutoRotateChanged),
        }
    }

    /// Left/Right outside a numeric field.
    ///
    /// Main page: Rendering cycles the mode; a visibility row is set off
    /// (Left) or on (Right), reporting a change only when the value changed;
    /// Performance affects only the Settings readout. Appearance cycles its
    /// choice. Custom Color steps the selected draft channel by eight,
    /// saturating, and never touches the active options.
    pub open spec fn adjust(self, options: GraphOptions, right: bool) -> (
        SettingsModel,
        GraphOptions,
        SettingsAction,
    ) {
        if self.editing {
            (self, options, SettingsAction::Unchanged)
        } else if self.page == SettingsPage::Appearance {
            let (o, a) = self.adjust_appearance(options, right);
            (self, o, a)
        } else if self.page == SettingsPage::CustomColor {
            if self.custom_item() == CustomColorItem::Apply {
                (self, options, SettingsAction::Unchanged)
            } else {
                let current = self.channel();
                let adjusted = if right {
                    channel_up(current)
                } else {
                    channel_down(current)
                };
                if adjusted == current {
                    (self, options, SettingsAction::Unchanged)
                } else {
                    (self.with_channel(adjusted), options, SettingsAction::Redraw)
                }
            }
        } else if self.page != SettingsPage::Main {
            (self, options, SettingsAction::Unchanged)
        } else {
            match self.item() {
                SettingsItem::RenderingMode => (
                    self,
                    GraphOptions { rendering_mode: other_mode(options.rendering_mode), ..options },
                    SettingsAction::GraphChanged,
                ),
                SettingsItem::GroundGrid => if options.show_grid == right {
                    (self, options, SettingsAction::Unchanged)
                } else {
                    (self, GraphOptions { show_grid: right, ..options }, SettingsAction::GraphChanged)
                },
                SettingsItem::Axes => if options.show_axes == right {
                    (self, options, SettingsAction::Unchanged)
                } else {
                    (self, GraphOptions { show_axes: right, ..options }, SettingsAction::GraphChanged)
                },
                SettingsItem::Ticks => if options.show_ticks == right {
                    (self, options, SettingsAction::Unchanged)
                } else {
                    (self, GraphOptions { show_ticks: right, ..options }, SettingsAction::GraphChanged)
                },
                SettingsItem::Labels => if options.show_labels == right {
                    (self, options, SettingsAction::Unchanged)
                } else {
                    (
                        self,
                        GraphOptions { show_labels: right, ..options },
                        SettingsAction::GraphChanged,
                    )
                },
                SettingsItem::Performance => if options.show_performance == right {
                    (self, options, SettingsAction::Unchanged)
                } else {
                    (self, GraphOptions { show_performance: right, ..options }, SettingsAction::Redraw)
                },
                SettingsItem::Domain | SettingsItem::ResetCamera => (
                    self,
                    options,
                    SettingsAction::Unchanged,
                ),
            }
        }
    }

    /// EXE on a numeric domain bound: an untouched field closes without any
    /// change; malformed text stays open with `InvalidNumber`; a well-formed
    /// number is handed to the application.
    pub open spec fn submit_domain(self) -> (SettingsModel, SettingsAction) {
        if !self.numeric.modified {
            (self.closed_field(), SettingsAction::Redraw)
        } else if !is_signed_literal(self.numeric.text) {
            (self.with_error(NumericError::InvalidNumber), SettingsAction::Redraw)
        } else {
            (self, SettingsAction::DomainDraftReady)
        }
    }

    /// EXE on a color channel: an untouched field closes; a value outside
    /// `0..=255` stays open with `ColorOutOfRange`; otherwise the draft
    /// channel takes the value and the field closes.
    pub open spec fn submit_channel(self) -> (SettingsModel, SettingsAction) {
        if !self.numeric.modified {
            (self.closed_field(), SettingsAction::Redraw)
        } else {
            match color_channel_value(self.numeric.text) {
                Some(value) => (self.with_channel(value).closed_field(), SettingsAction::Redraw),
                None => (self.with_error(NumericError::ColorOutOfRange), SettingsAction::Redraw),
            }
        }
    }

    /// EXE outside a numeric field.
    ///
    /// `bound_text` is the display text of the selected domain bound; it is
    /// loaded only when a Domain bound starts editing.
    pub open spec fn activate(self, options: GraphOptions, bound_text: Seq<u8>) -> (
        SettingsModel,
        GraphOptions,
        SettingsAction,
    ) {
        if self.page == SettingsPage::Domain {
            if self.editing {
                let (m, a) = self.submit_domain();
                (m, options, a)
            } else {
                (
                    SettingsModel { editing: true, numeric: NumericModel::loaded(bound_text), ..self },
                    options,
                    SettingsAction::Redraw,
                )
            }
        } else if self.page == SettingsPage::CustomColor {
            if self.editing {
                let (m, a) = self.submit_channel();
                (m, options, a)
            } else if self.custom_item() == CustomColorItem::Apply {
                (
                    SettingsModel {
                        page: SettingsPage::Appearance,
                        numeric: NumericModel::empty(),
                        ..self
                    },
                    GraphOptions {
                        custom_rgb: self.custom_color_draft,
                        surface_palette: SurfacePalette::Custom,
                        ..options
                    },
                    SettingsAction::GraphChanged,
                )
            } else {
                (
                    SettingsModel {
                        editing: true,
                        numeric: NumericModel::loaded(decimal(self.channel() as nat)),
                        ..self
                    },
                    options,
                    SettingsAction::Redraw,
                )
            }
        } else if self.page == SettingsPage::Appearance {
            if self.appearance_item() == AppearanceItem::SurfaceColor && options.surface_palette
                == SurfacePalette::Custom {
                (
                    SettingsModel {
                        page: SettingsPage::CustomColor,
                        custom_color_index: 0,
                        custom_color_draft: options.custom_rgb,
                        numeric: NumericModel::empty(),
                        ..self
                    },
                    options,
                    SettingsAction::Redraw,
                )
            } else {
                let (o, a) = self.adjust_appearance(options, true);
                (self, o, a)
            }
        } else {
            match self.item() {
                SettingsItem::RenderingMode => (
                    SettingsModel { page: SettingsPage::Appearance, appearance_index: 0, ..self },
                    options,
                    SettingsAction::Redraw,
                ),
                SettingsItem::GroundGrid => (
                    self,
                    GraphOptions { show_grid: !options.show_grid, ..options },
                    SettingsAction::GraphChanged,
                ),
                SettingsItem::Axes => (
                    self,
                    GraphOptions { show_axes: !options.show_axes, ..options },
                    SettingsAction::GraphChanged,
                ),
                SettingsItem::Ticks => (
                    self,
                    GraphOptions { show_ticks: !options.show_ticks, ..options },
                    SettingsAction::GraphChanged,
                ),
                SettingsItem::Labels => (
                    self,
                    GraphOptions { show_labels: !options.show_labels, ..options },
                    SettingsAction::GraphChanged,
                ),
                SettingsItem::Performance => (
                    self,
                    GraphOptions { show_performance: !options.show_performance, ..options },
                    SettingsAction::Redraw,
                ),
                SettingsItem::Domain => (
                    SettingsModel {
                        page: SettingsPage::Domain,
                        editing: false,
                        numeric: NumericModel::empty(),
                        ..self
                    },
                    options,
                    SettingsAction::Redraw,
                ),
                SettingsItem::ResetCamera => (self, options, SettingsAction::ResetCamera),
            }
        }
    }

    /// Back at every nested level: cancel an edit, then leave Custom Color
    /// for Appearance, then Domain or Appearance for the main page, and
    /// finally leave Settings.
    pub open spec fn back(self) -> (SettingsModel, SettingsAction) {
        if self.editing {
            (self.closed_field(), SettingsAction::Redraw)
        } else if self.page == SettingsPage::CustomColor {
            (
                SettingsModel { page: SettingsPage::Appearance, numeric: NumericModel::empty(), ..self },
                SettingsAction::Redraw,
            )
        } else if self.page == SettingsPage::Domain || self.page == SettingsPage::Appearance {
            (
                SettingsModel { page: SettingsPage::Main, numeric: NumericModel::empty(), ..self },
                SettingsAction::Redraw,
            )
        } else {
            (self, SettingsAction::LeaveSettings)
        }
    }

    /// One semantic event while the numeric field is active.
    pub open spec fn editor_event(self, value: u16) -> (SettingsModel, SettingsAction) {
        let n = self.numeric;
        if !self.editing {
            (self, SettingsAction::Unchanged)
        } else if value == EVENT_LEFT {
            if n.cursor == 0 {
                (self, SettingsAction::Unchanged)
            } else {
                (SettingsModel { numeric: n.with_cursor((n.cursor - 1) as nat), ..self }, SettingsAction::Redraw)
            }
        } else if value == EVENT_RIGHT {
            if n.cursor >= n.text.len() {
                (self, SettingsAction::Unchanged)
            } else {
                (SettingsModel { numeric: n.with_cursor(n.cursor + 1), ..self }, SettingsAction::Redraw)
            }
        } else if value == EVENT_SHIFT_LEFT {
            if n.cursor == 0 {
                (self, SettingsAction::Unchanged)
            } else {
                (SettingsModel { numeric: n.with_cursor(0), ..self }, SettingsAction::Redraw)
            }
        } else if value == EVENT_SHIFT_RIGHT {
            if n.cursor == n.text.len() {
                (self, SettingsAction::Unchanged)
            } else {
                (SettingsModel { numeric: n.with_cursor(n.text.len()), ..self }, SettingsAction::Redraw)
            }
        } else if value == EVENT_BACKSPACE {
            if n.cursor == 0 {
                (self, SettingsAction::Unchanged)
            } else {
                (SettingsModel { numeric: n.backspaced(), ..self }, SettingsAction::Redraw)
            }
        } else if value == EVENT_CLEAR {
            if n.text.len() == 0 {
                (self, SettingsAction::Unchanged)
            } else {
                (SettingsModel { numeric: n.cleared(), ..self }, SettingsAction::Redraw)
            }
        } else if value == EVENT_BACK {
            self.back()
        } else if value == EVENT_EXE {
            if self.page == SettingsPage::CustomColor {
                self.submit_channel()
            } else {
                self.submit_domain()
            }
        } else {
            match numeric_event_text(self.page, value) {
                Some(bytes) => if n.can_insert(bytes) {
                    (SettingsModel { numeric: n.inserted(bytes), ..self }, SettingsAction::Redraw)
                } else {
                    (self.with_error(NumericError::TooLong), SettingsAction::Redraw)
                },
                None => (self, SettingsAction::Unchanged),
            }
        }
    }

    /// The application's verdict on a submitted domain draft: an error keeps
    /// the field open and shows it; acceptance closes the field.
    pub open spec fn finish_domain_edit(self, error: Option<NumericError>) -> SettingsModel {
        match error {
            Some(e) => self.with_error(e),
            None => self.closed_field(),
        }
    }
}


/// The active custom color changes only through Apply on the Custom Color
/// page (with no channel being edited), and Apply commits exactly the draft
/// and selects the Custom palette. Left/Right never changes it.
pub proof fn custom_color_changes_only_on_apply(
    settings: SettingsModel,
    options: GraphOptions,
    right: bool,
    bound_text: Seq<u8>,
)
    requires
        settings.wf(),
    ensures
        settings.adjust(options, right).1.custom_rgb == options.custom_rgb,
        settings.activate(options, bound_text).1.custom_rgb != options.custom_rgb ==> (
        settings.page == SettingsPage::CustomColor && !settings.editing && settings.custom_item()
            == CustomColorItem::Apply),
        (settings.page == SettingsPage::CustomColor && !settings.editing && settings.custom_item()
            == CustomColorItem::Apply) ==> settings.activate(options, bound_text).1.custom_rgb
            == settings.custom_color_draft && settings.activate(
            options,
            bound_text,
        ).1.surface_palette == SurfacePalette::Custom,
{
}

/// Back reports leaving Settings exactly on the main page with no field
/// being edited; at every other level it unwinds one step and stays.
pub proof fn back_leaves_only_from_main(settings: SettingsModel)
    ensures
        (settings.back().1 == SettingsAction::LeaveSettings) == (!settings.editing && settings.page
            == SettingsPage::Main),
        settings.editing ==> settings.back().0.page == settings.page && !settings.back().0.editing,
{
}

/// A domain draft is transactional: while a bound is being edited, the
/// field closes only on Back or when an untouched draft is submitted, and
/// a draft is handed to the application only when it is a well-formed
/// number, with nothing else changed.
pub proof fn domain_draft_is_transactional(settings: SettingsModel, value: u16)
    requires
        settings.wf(),
        settings.editing,
        settings.page == SettingsPage::Domain,
    ensures
        !settings.editor_event(value).0.editing ==> (value == EVENT_BACK || (value == EVENT_EXE
            && !settings.numeric.modified)),
        settings.editor_event(value).1 == SettingsAction::DomainDraftReady ==> (is_signed_literal(
            settings.numeric.text,
        ) && settings.editor_event(value).0 == settings),
        settings.finish_domain_edit(Some(NumericError::InvalidNumber)).editing,
{
}

/// Only the Resolution row of the Appearance page (by Left, Right or EXE,
/// with no field being edited) reports a resolution change; moving the
/// selection, Back, and numeric editing never do.
pub proof fn resolution_change_only_from_resolution_row(
    settings: SettingsModel,
    options: GraphOptions,
    right: bool,
    bound_text: Seq<u8>,
    value: u16,
)
    ensures
        settings.select_previous().1 != SettingsAction::ResolutionChanged,
        settings.select_next().1 != SettingsAction::ResolutionChanged,
        settings.back().1 != SettingsAction::ResolutionChanged,
        settings.editor_event(value).1 != SettingsAction::ResolutionChanged,
        settings.adjust(options, right).2 == SettingsAction::ResolutionChanged ==> (settings.page
            == SettingsPage::Appearance && settings.appearance_item() == AppearanceItem::Resolution),
        settings.activate(options, bound_text).2 == SettingsAction::ResolutionChanged ==> (
        settings.page == SettingsPage::Appearance && settings.appearance_item()
            == AppearanceItem::Resolution),
{
}

/// Every Settings operation keeps the row selections in range and the
/// numeric field within its capacity.
pub proof fn settings_operations_preserve_wf(
    settings: SettingsModel,
    options: GraphOptions,
    right: bool,
    bound_text: Seq<u8>,
    value: u16,
    error: Option<NumericError>,
)
    requires
        settings.wf(),
    ensures
        settings.select_previous().0.wf(),
        settings.select_next().0.wf(),
        settings.adjust(options, right).0.wf(),
        settings.back().0.wf(),
        settings.finish_domain_edit(error).wf(),
{
}

/// Fixed-capacity numeric field.
struct NumericEditor {
    text: Vec<u8>,
    cursor: usize,
    scroll: usize,
    error: Option<NumericError>,
    modified: bool,
}

impl View for NumericEditor {
    type V = NumericModel;

    closed spec fn view(&self) -> NumericModel {
        NumericModel {
            text: self.text@,
            cursor: self.cursor as nat,
            scroll: self.scroll as nat,
            error: self.error,
            modified: self.modified,
        }
    }
}

impl NumericEditor {
    fn new() -> (editor: NumericEditor)
        ensures
            editor@ == NumericModel::empty(),
    {
        NumericEditor { text: Vec::new(), cursor: 0, scroll: 0, error: None, modified: false }
    }

    fn reset(&mut self)
        ensures
            final(self)@ == NumericModel::empty(),
    {
        self.text.clear();
        self.cursor = 0;
        self.scroll = 0;
        self.error = None;
        self.modified = false;
    }

    fn update_scroll(&mut self)
        requires
            old(self)@.scroll <= NUMERIC_CAPACITY,
        ensures
            final(self)@ == old(self)@.with_cursor(old(self)@.cursor),
    {
        if self.cursor < self.scroll {
            self.scroll = self.cursor;
        } else if self.cursor > self.scroll + NUMERIC_VISIBLE_CHARACTERS {
            self.scroll = self.cursor - NUMERIC_VISIBLE_CHARACTERS;
        }
    }

    fn insert(&mut self, bytes: &[u8]) -> (inserted: bool)
        requires
            old(self)@.wf(),
        ensures
            inserted == old(self)@.can_insert(bytes@),
            inserted ==> final(self)@ == old(self)@.inserted(bytes@),
            !inserted ==> final(self)@ == old(self)@,
            final(self)@.wf(),
    {
        if bytes.len() == 0 || bytes.len() > NUMERIC_CAPACITY - self.text.len() {
            return false;
        }
        let ghost before = self@;
        let start = self.cursor;
        let mut index: usize = 0;
        proof {
            assert(before.text.take(start as int) + bytes@.take(0) + before.text.skip(start as int)
                =~= before.text);
        }
        while index < bytes.len()
            invariant
                0 <= index <= bytes.len(),
                start == before.cursor,
                before.wf(),
                before.can_insert(bytes@),
                self@ == (NumericModel {
                    text: before.text.take(start as int) + bytes@.take(index as int)
                        + before.text.skip(start as int),
                    ..before
                }),
            decreases bytes.len() - index,
        {
            proof {
                let prefix = before.text.take(start as int);
                let suffix = before.text.skip(start as int);
                assert((prefix + bytes@.take(index as int) + suffix).insert(
                    start + index,
                    bytes@[index as int],
                ) =~= prefix + bytes@.take(index + 1) + suffix);
            }
            self.text.insert(start + index, bytes[index]);
            index = index + 1;
        }
        proof {
            assert(bytes@.take(bytes@.len() as int) =~= bytes@);
        }
        self.cursor = start + bytes.len();
        self.error = None;
        self.modified = true;
        self.update_scroll();
        true
    }

    fn load(&mut self, text: &[u8])
        ensures
            final(self)@ == NumericModel::loaded(text@),
            final(self)@.wf(),
    {
        self.reset();
        let _ = self.insert(text);
        self.error = None;
        self.modified = false;
    }

    fn backspace(&mut self) -> (deleted: bool)
        requires
            old(self)@.wf(),
        ensures
            deleted == (old(self)@.cursor > 0),
            deleted ==> final(self)@ == old(self)@.backspaced(),
            !deleted ==> final(self)@ == old(self)@,
            final(self)@.wf(),
    {
        if self.cursor == 0 {
            return false;
        }
        let removed = self.cursor - 1;
        self.text.remove(removed);
        self.cursor = removed;
        self.error = None;
        self.modified = true;
        self.update_scroll();
        true
    }

    fn clear(&mut self) -> (cleared: bool)
        requires
            old(self)@.wf(),
        ensures
            cleared == (old(self)@.text.len() > 0),
            cleared ==> final(self)@ == old(self)@.cleared(),
            !cleared ==> final(self)@ == old(self)@,
            final(self)@.wf(),
    {
        if self.text.len() == 0 {
            return false;
        }
        self.text.clear();
        self.cursor = 0;
        self.scroll = 0;
        self.error = None;
        self.modified = true;
        true
    }

    fn move_to(&mut self, cursor: usize)
        requires
            old(self)@.wf(),
            cursor <= old(self)@.text.len(),
        ensures
            final(self)@ == old(self)@.with_cursor(cursor as nat),
            final(self)@.wf(),
    {
        self.cursor = cursor;
        self.update_scroll();
    }

    fn source(&self) -> (bytes: &[u8])
        ensures
            bytes@ == self@.text,
    {
        self.text.as_slice()
    }

    fn visible_bytes(&self) -> (bytes: &[u8])
        requires
            self@.wf(),
        ensures
            bytes@ == self@.text.subrange(
                self@.scroll as int,
                if self@.text.len() < self@.scroll + NUMERIC_VISIBLE_CHARACTERS {
                    self@.text.len() as int
                } else {
                    self@.scroll + NUMERIC_VISIBLE_CHARACTERS
                },
            ),
    {
        let end = if self.text.len() < self.scroll + NUMERIC_VISIBLE_CHARACTERS {
            self.text.len()
        } else {
            self.scroll + NUMERIC_VISIBLE_CHARACTERS
        };
        vstd::slice::slice_subrange(self.text.as_slice(), self.scroll, end)
    }
}

/// Parses one Custom RGB channel: decimal digits only, value at most 255.
pub fn parse_color_channel(source: &[u8]) -> (value: Option<u8>)
    ensures
        value == color_channel_value(source@),
{
    if source.len() == 0 {
        return None;
    }
    let mut value: u16 = 0;
    let mut index: usize = 0;
    while index < source.len()
        invariant
            0 <= index <= source@.len(),
            source@.len() > 0,
            forall|i: int| 0 <= i < index ==> crate::number::is_digit(#[trigger] source@[i]),
            value == crate::number::digits_value(source@, 0, index as int),
            value <= 255,
        decreases source@.len() - index,
    {
        let byte = source[index];
        if byte < 48 || byte > 57 {
            return None;
        }
        value = value * 10 + (byte - 48) as u16;
        if value > 255 {
            proof {
                assert forall|i: int| 0 <= i < index + 1 implies crate::number::is_digit(
                    #[trigger] source@[i],
                ) by {}
                lemma_digits_grow(source@, index + 1);
            }
            return None;
        }
        index = index + 1;
    }
    Some(value as u8)
}

proof fn lemma_digits_grow(s: Seq<u8>, j: int)
    requires
        0 <= j <= s.len(),
        forall|i: int| 0 <= i < j ==> crate::number::is_digit(#[trigger] s[i]),
    ensures
        (forall|i: int| 0 <= i < s.len() ==> crate::number::is_digit(#[trigger] s[i]))
            ==> crate::number::digits_value(s, 0, j) <= crate::number::digits_value(
            s,
            0,
            s.len() as int,
        ),
    decreases s.len() - j,
{
    if j < s.len() && crate::number::is_digit(s[j]) {
        lemma_digits_grow(s, j + 1);
    }
}

/// Fixed-storage state for every Settings subpage and the shared numeric field.
pub struct SettingsState {
    page: SettingsPage,
    menu_index: usize,
    domain_index: usize,
    appearance_index: usize,
    custom_color_index: u8,
    custom_color_draft: Rgb888,
    editing: bool,
    numeric: NumericEditor,
}

impl View for SettingsState {
    type V = SettingsModel;

    closed spec fn view(&self) -> SettingsModel {
        SettingsModel {
            page: self.page,
            menu_index: self.menu_index as nat,
            domain_index: self.domain_index as nat,
            appearance_index: self.appearance_index as nat,
            custom_color_index: self.custom_color_index as nat,
            custom_color_draft: self.custom_color_draft,
            editing: self.editing,
            numeric: self.numeric@,
        }
    }
}


impl SettingsState {
    /// Starts at the Rendering row of the main page.
    pub fn new() -> (state: SettingsState)
        ensures
            state@ == SettingsModel::initial(),
            state@.wf(),
    {
        SettingsState {
            page: SettingsPage::Main,
            menu_index: 0,
            domain_index: 0,
            appearance_index: 0,
            custom_color_index: 0,
            custom_color_draft: Rgb888::default_custom(),
            editing: false,
            numeric: NumericEditor::new(),
        }
    }

    /// Currently visible Settings page.
    pub fn page(&self) -> (page: SettingsPage)
        ensures
            page == self@.page,
    {
        self.page
    }

    /// Selected main-menu row.
    pub fn selected_item(&self) -> (item: SettingsItem)
        ensures
            item == self@.item(),
    {
        SettingsItem::from_index(self.menu_index)
    }

    /// Selected bound on the Domain page.
    pub fn selected_domain_field(&self) -> (field: DomainField)
        ensures
            field == domain_field_at(self@.domain_index as int),
    {
        DomainField::from_index(self.domain_index)
    }

    /// Selected row on the Appearance page.
    pub fn selected_appearance_item(&self) -> (item: AppearanceItem)
        ensures
            item == self@.appearance_item(),
    {
        if self.appearance_index < APPEARANCE_ITEM_COUNT {
            AppearanceItem::from_index(self.appearance_index as u8)
        } else {
            AppearanceItem::AutoRotate
        }
    }

    /// Selected R/G/B/Apply row on the Custom Color page.
    pub fn selected_custom_color_item(&self) -> (item: CustomColorItem)
        ensures
            item == self@.custom_item(),
    {
        CustomColorItem::from_index(self.custom_color_index)
    }

    /// Temporary RGB value shown by the Custom Color page and preview.
    pub fn custom_color_draft(&self) -> (draft: Rgb888)
        ensures
            draft == self@.custom_color_draft,
    {
        self.custom_color_draft
    }

    /// Whether semantic events currently belong to the numeric field.
    pub fn is_editing(&self) -> (editing: bool)
        ensures
            editing == self@.editing,
    {
        self.editing
    }

    /// Error to draw below the active numeric field.
    pub fn error(&self) -> (error: Option<NumericError>)
        ensures
            error == self@.numeric.error,
    {
        self.numeric.error
    }

    /// Complete numeric draft.
    pub fn edit_source(&self) -> (source: &[u8])
        ensures
            source@ == self@.numeric.text,
    {
        self.numeric.source()
    }

    /// Current numeric insertion position.
    pub fn edit_cursor(&self) -> (cursor: usize)
        ensures
            cursor == self@.numeric.cursor,
    {
        self.numeric.cursor
    }

    /// First visible byte of the numeric field.
    pub fn edit_scroll(&self) -> (scroll: usize)
        ensures
            scroll == self@.numeric.scroll,
    {
        self.numeric.scroll
    }

    /// Visible portion of the numeric draft.
    pub fn edit_visible_bytes(&self) -> (bytes: &[u8])
        requires
            self@.wf(),
        ensures
            bytes@ == self@.numeric.text.subrange(
                self@.numeric.scroll as int,
                if self@.numeric.text.len() < self@.numeric.scroll + NUMERIC_VISIBLE_CHARACTERS {
                    self@.numeric.text.len() as int
                } else {
                    self@.numeric.scroll + NUMERIC_VISIBLE_CHARACTERS
                },
            ),
    {
        self.numeric.visible_bytes()
    }

    /// Moves one row upward without wrapping.
    pub fn select_previous(&mut self) -> (action: SettingsAction)
        requires
            old(self)@.wf(),
        ensures
            (final(self)@, action) == old(self)@.select_previous(),
            final(self)@.wf(),
    {
        if self.editing {
            return SettingsAction::Unchanged;
        }
        match self.page {
            SettingsPage::Main => {
                if self.menu_index == 0 {
                    return SettingsAction::Unchanged;
                }
                self.menu_index = self.menu_index - 1;
            },
            SettingsPage::Domain => {
                if self.domain_index == 0 {
                    return SettingsAction::Unchanged;
                }
                self.domain_index = self.domain_index - 1;
            },
            SettingsPage::Appearance => {
                if self.appearance_index == 0 {
                    return SettingsAction::Unchanged;
                }
                self.appearance_index = self.appearance_index - 1;
            },
            SettingsPage::CustomColor => {
                if self.custom_color_index == 0 {
                    return SettingsAction::Unchanged;
                }
                self.custom_color_index = self.custom_color_index - 1;
            },
        }
        SettingsAction::Redraw
    }

    /// Moves one row downward without wrapping.
    pub fn select_next(&mut self) -> (action: SettingsAction)
        requires
            old(self)@.wf(),
        ensures
            (final(self)@, action) == old(self)@.select_next(),
            final(self)@.wf(),
    {
        if self.editing {
            return SettingsAction::Unchanged;
        }
        match self.page {
            SettingsPage::Main => {
                if self.menu_index + 1 >= SETTINGS_ITEM_COUNT {
                    return SettingsAction::Unchanged;
                }
                self.menu_index = self.menu_index + 1;
            },
            SettingsPage::Domain => {
                if self.domain_index + 1 >= DOMAIN_FIELD_COUNT {
                    return SettingsAction::Unchanged;
                }
                self.domain_index = self.domain_index + 1;
            },
            SettingsPage::Appearance => {
                if self.appearance_index + 1 >= APPEARANCE_ITEM_COUNT {
                    return SettingsAction::Unchanged;
                }
                self.appearance_index = self.appearance_index + 1;
            },
            SettingsPage::CustomColor => {
                if self.custom_color_index as usize + 1 >= CUSTOM_COLOR_ITEM_COUNT {
                    return SettingsAction::Unchanged;
                }
                self.custom_color_index = self.custom_color_index + 1;
            },
        }
        SettingsAction::Redraw
    }

    /// Applies the left-arrow meaning for the selected value.
    pub fn adjust_left(&mut self, options: &mut GraphOptions) -> (action: SettingsAction)
        requires
            old(self)@.wf(),
        ensures
            (final(self)@, *final(options), action) == old(self)@.adjust(*old(options), false),
            final(self)@.wf(),
    {
        self.adjust(options, false)
    }

    /// Applies the right-arrow meaning for the selected value.
    pub fn adjust_right(&mut self, options: &mut GraphOptions) -> (action: SettingsAction)
        requires
            old(self)@.wf(),
        ensures
            (final(self)@, *final(options), action) == old(self)@.adjust(*old(options), true),
            final(self)@.wf(),
    {
        self.adjust(options, true)
    }

    fn adjust_appearance(&self, options: &mut GraphOptions, right: bool) -> (action: SettingsAction)
        ensures
            (*final(options), action) == self@.adjust_appearance(*old(options), right),
    {
        match self.selected_appearance_item() {
            AppearanceItem::Lighting => {
                options.lighting = if right {
                    options.lighting.next()
                } else {
                    options.lighting.previous()
                };
                SettingsAction::GraphChanged
            },
            AppearanceItem::SurfaceColor => {
                options.surface_palette = if right {
                    options.surface_palette.next()
                } else {
                    options.surface_palette.previous()
                };
                SettingsAction::GraphChanged
            },
            AppearanceItem::Resolution => {
                options.resolution = if right {
                    options.resolution.next()
                } else {
                    options.resolution.previous()
                };
                SettingsAction::ResolutionChanged
            },
            AppearanceItem::AutoRotate => SettingsAction::AutoRotateChanged,
        }
    }

    fn custom_channel_value(&self) -> (value: u8)
        ensures
            value == self@.channel(),
    {
        match self.selected_custom_color_item() {
            CustomColorItem::Red => self.custom_color_draft.red,
            CustomColorItem::Green => self.custom_color_draft.green,
            CustomColorItem::Blue => self.custom_color_draft.blue,
            CustomColorItem::Apply => 0,
        }
    }

    fn set_custom_channel_value(&mut self, value: u8)
        ensures
            final(self)@ == old(self)@.with_channel(value),
    {
        match self.selected_custom_color_item() {
            CustomColorItem::Red => self.custom_color_draft.red = value,
            CustomColorItem::Green => self.custom_color_draft.green = value,
            CustomColorItem::Blue => self.custom_color_draft.blue = value,
            CustomColorItem::Apply => {},
        }
    }

    fn adjust(&mut self, options: &mut GraphOptions, right: bool) -> (action: SettingsAction)
        requires
            old(self)@.wf(),
        ensures
            (final(self)@, *final(options), action) == old(self)@.adjust(*old(options), right),
            final(self)@.wf(),
    {
        if self.editing {
            return SettingsAction::Unchanged;
        }
        if self.page == SettingsPage::Appearance {
            return self.adjust_appearance(options, right);
        }
        if self.page == SettingsPage::CustomColor {
            if self.selected_custom_color_item() == CustomColorItem::Apply {
                return SettingsAction::Unchanged;
            }
            let current = self.custom_channel_value();
            let adjusted = if right {
                current.saturating_add(CUSTOM_COLOR_STEP)
            } else {
                current.saturating_sub(CUSTOM_COLOR_STEP)
            };
            if adjusted == current {
                return SettingsAction::Unchanged;
            }
            self.set_custom_channel_value(adjusted);
            return SettingsAction::Redraw;
        }
        if self.page != SettingsPage::Main {
            return SettingsAction::Unchanged;
        }
        match self.selected_item() {
            SettingsItem::RenderingMode => {
                options.rendering_mode = if right {
                    options.rendering_mode.next()
                } else {
                    options.rendering_mode.previous()
                };
                SettingsAction::GraphChanged
            },
            SettingsItem::GroundGrid => {
                if options.show_grid == right {
                    SettingsAction::Unchanged
                } else {
                    options.show_grid = right;
                    SettingsAction::GraphChanged
                }
            },
            SettingsItem::Axes => {
                if options.show_axes == right {
                    SettingsAction::Unchanged
                } else {
                    options.show_axes = right;
                    SettingsAction::GraphChanged
                }
            },
            SettingsItem::Ticks => {
                if options.show_ticks == right {
                    SettingsAction::Unchanged
                } else {
                    options.show_ticks = right;
                    SettingsAction::GraphChanged
                }
            },
            SettingsItem::Labels => {
                if options.show_labels == right {
                    SettingsAction::Unchanged
                } else {
                    options.show_labels = right;
                    SettingsAction::GraphChanged
                }
            },
            SettingsItem::Performance => {
                if options.show_performance == right {
                    SettingsAction::Unchanged
                } else {
                    options.show_performance = right;
                    SettingsAction::Redraw
                }
            },
            SettingsItem::Domain | SettingsItem::ResetCamera => SettingsAction::Unchanged,
        }
    }

    fn close_field(&mut self)
        ensures
            final(self)@ == old(self)@.closed_field(),
    {
        self.editing = false;
        self.numeric.reset();
    }

    fn submit_domain(&mut self) -> (action: SettingsAction)
        requires
            old(self)@.wf(),
        ensures
            (final(self)@, action) == old(self)@.submit_domain(),
            final(self)@.wf(),
    {
        if !self.numeric.modified {
            self.close_field();
            return SettingsAction::Redraw;
        }
        if !signed_literal(self.numeric.source()) {
            self.numeric.error = Some(NumericError::InvalidNumber);
            return SettingsAction::Redraw;
        }
        SettingsAction::DomainDraftReady
    }

    fn submit_custom_channel(&mut self) -> (action: SettingsAction)
        requires
            old(self)@.wf(),
        ensures
            (final(self)@, action) == old(self)@.submit_channel(),
            final(self)@.wf(),
    {
        if !self.numeric.modified {
            self.close_field();
            return SettingsAction::Redraw;
        }
        match parse_color_channel(self.numeric.source()) {
            Some(value) => {
                self.set_custom_channel_value(value);
                self.close_field();
                SettingsAction::Redraw
            },
            None => {
                self.numeric.error = Some(NumericError::ColorOutOfRange);
                SettingsAction::Redraw
            },
        }
    }

    /// Handles EXE outside a numeric field, or submits the active field.
    ///
    /// `bound_text` is the display text of the selected domain bound
    /// (see [`NumberText`]); it is loaded only when a bound starts editing.
    pub fn activate(&mut self, options: &mut GraphOptions, bound_text: &[u8]) -> (action:
        SettingsAction)
        requires
            old(self)@.wf(),
        ensures
            (final(self)@, *final(options), action) == old(self)@.activate(
                *old(options),
                bound_text@,
            ),
            final(self)@.wf(),
    {
        if self.page == SettingsPage::Domain {
            if self.editing {
                return self.submit_domain();
            }
            self.numeric.load(bound_text);
            self.editing = true;
            return SettingsAction::Redraw;
        }
        if self.page == SettingsPage::CustomColor {
            if self.editing {
                return self.submit_custom_channel();
            }
            if self.selected_custom_color_item() == CustomColorItem::Apply {
                options.custom_rgb = self.custom_color_draft;
                options.surface_palette = SurfacePalette::Custom;
                self.page = SettingsPage::Appearance;
                self.numeric.reset();
                return SettingsAction::GraphChanged;
            }
            let mut channel_text: Vec<u8> = Vec::new();
            push_decimal(&mut channel_text, self.custom_channel_value() as u32);
            proof {
                assert(channel_text@ =~= decimal(self@.channel() as nat));
            }
            self.numeric.load(channel_text.as_slice());
            self.editing = true;
            return SettingsAction::Redraw;
        }
        if self.page == SettingsPage::Appearance {
            if self.selected_appearance_item() == AppearanceItem::SurfaceColor
                && options.surface_palette == SurfacePalette::Custom {
                self.page = SettingsPage::CustomColor;
                self.custom_color_index = 0;
                self.custom_color_draft = options.custom_rgb;
                self.numeric.reset();
                return SettingsAction::Redraw;
            }
            return self.adjust_appearance(options, true);
        }
        match self.selected_item() {
            SettingsItem::RenderingMode => {
                self.page = SettingsPage::Appearance;
                self.appearance_index = 0;
                SettingsAction::Redraw
            },
            SettingsItem::GroundGrid => {
                options.show_grid = !options.show_grid;
                SettingsAction::GraphChanged
            },
            SettingsItem::Axes => {
                options.show_axes = !options.show_axes;
                SettingsAction::GraphChanged
            },
            SettingsItem::Ticks => {
                options.show_ticks = !options.show_ticks;
                SettingsAction::GraphChanged
            },
            SettingsItem::Labels => {
                options.show_labels = !options.show_labels;
                SettingsAction::GraphChanged
            },
            SettingsItem::Performance => {
                options.show_performance = !options.show_performance;
                SettingsAction::Redraw
            },
            SettingsItem::Domain => {
                self.page = SettingsPage::Domain;
                self.editing = false;
                self.numeric.reset();
                SettingsAction::Redraw
            },
            SettingsItem::ResetCamera => SettingsAction::ResetCamera,
        }
    }

    /// Handles Back at every nested Settings level.
    pub fn back(&mut self) -> (action: SettingsAction)
        requires
            old(self)@.wf(),
        ensures
            (final(self)@, action) == old(self)@.back(),
            final(self)@.wf(),
    {
        if self.editing {
            self.close_field();
            return SettingsAction::Redraw;
        }
        if self.page == SettingsPage::CustomColor {
            self.page = SettingsPage::Appearance;
            self.numeric.reset();
            return SettingsAction::Redraw;
        }
        if self.page == SettingsPage::Domain || self.page == SettingsPage::Appearance {
            self.page = SettingsPage::Main;
            self.numeric.reset();
            return SettingsAction::Redraw;
        }
        SettingsAction::LeaveSettings
    }

    /// Records the application's verdict on a submitted domain draft.
    pub fn finish_domain_edit(&mut self, error: Option<NumericError>)
        requires
            old(self)@.wf(),
        ensures
            final(self)@ == old(self)@.finish_domain_edit(error),
            final(self)@.wf(),
    {
        match error {
            Some(e) => self.numeric.error = Some(e),
            None => self.close_field(),
        }
    }

    fn numeric_insert(&mut self, bytes: &[u8]) -> (action: SettingsAction)
        requires
            old(self)@.wf(),
        ensures
            old(self)@.numeric.can_insert(bytes@) ==> final(self)@ == (SettingsModel {
                numeric: old(self)@.numeric.inserted(bytes@),
                ..old(self)@
            }),
            !old(self)@.numeric.can_insert(bytes@) ==> final(self)@ == old(self)@.with_error(
                NumericError::TooLong,
            ),
            action == SettingsAction::Redraw,
            final(self)@.wf(),
    {
        if !self.numeric.insert(bytes) {
            self.numeric.error = Some(NumericError::TooLong);
        }
        SettingsAction::Redraw
    }

    /// Applies one semantic calculator event while a numeric field is active.
    ///
    /// EXE submits, Back cancels, cursor keys move, Backspace and Clear
    /// delete, and only useful characters are accepted: digits everywhere,
    /// and `.`, `-`, `+`, `e` in domain bounds.
    pub fn handle_editor_event(&mut self, value: Event) -> (action: SettingsAction)
        requires
            old(self)@.wf(),
        ensures
            (final(self)@, action) == old(self)@.editor_event(value),
            final(self)@.wf(),
    {
        if !self.editing {
            return SettingsAction::Unchanged;
        }
        if value == EVENT_LEFT {
            if self.numeric.cursor == 0 {
                return SettingsAction::Unchanged;
            }
            let target = self.numeric.cursor - 1;
            self.numeric.move_to(target);
            SettingsAction::Redraw
        } else if value == EVENT_RIGHT {
            if self.numeric.cursor >= self.numeric.text.len() {
                return SettingsAction::Unchanged;
            }
            let target = self.numeric.cursor + 1;
            self.numeric.move_to(target);
            SettingsAction::Redraw
        } else if value == EVENT_SHIFT_LEFT {
            if self.numeric.cursor == 0 {
                return SettingsAction::Unchanged;
            }
            self.numeric.move_to(0);
            SettingsAction::Redraw
        } else if value == EVENT_SHIFT_RIGHT {
            if self.numeric.cursor == self.numeric.text.len() {
                return SettingsAction::Unchanged;
            }
            let target = self.numeric.text.len();
            self.numeric.move_to(target);
            SettingsAction::Redraw
        } else if value == EVENT_BACKSPACE {
            if self.numeric.backspace() {
                SettingsAction::Redraw
            } else {
                SettingsAction::Unchanged
            }
        } else if value == EVENT_CLEAR {
            if self.numeric.clear() {
                SettingsAction::Redraw
            } else {
                SettingsAction::Unchanged
            }
        } else if value == EVENT_BACK {
            self.back()
        } else if value == EVENT_EXE {
            if self.page == SettingsPage::CustomColor {
                self.submit_custom_channel()
            } else {
                self.submit_domain()
            }
        } else {
            match numeric_insertion(self.page, value) {
                Some(bytes) => self.numeric_insert(bytes.as_slice()),
                None => SettingsAction::Unchanged,
            }
        }
    }
}

/// Bytes a numeric-field event inserts on a page.
fn numeric_insertion(page: SettingsPage, value: Event) -> (text: Option<Vec<u8>>)
    ensures
        text is Some <==> numeric_event_text(page, value) is Some,
        text is Some ==> text.unwrap()@ == numeric_event_text(page, value).unwrap(),
{
    if value == EVENT_ZERO {
        Some(vec![48u8])
    } else if value == EVENT_ONE {
        Some(vec![49u8])
    } else if value == EVENT_TWO {
        Some(vec![50u8])
    } else if value == EVENT_THREE {
        Some(vec![51u8])
    } else if value == EVENT_FOUR {
        Some(vec![52u8])
    } else if value == EVENT_FIVE {
        Some(vec![53u8])
    } else if value == EVENT_SIX {
        Some(vec![54u8])
    } else if value == EVENT_SEVEN {
        Some(vec![55u8])
    } else if value == EVENT_EIGHT {
        Some(vec![56u8])
    } else if value == EVENT_NINE {
        Some(vec![57u8])
    } else if page != SettingsPage::CustomColor && value == EVENT_DOT {
        Some(vec![46u8])
    } else if page != SettingsPage::CustomColor && value == EVENT_MINUS {
        Some(vec![45u8])
    } else if page != SettingsPage::CustomColor && value == EVENT_PLUS {
        Some(vec![43u8])
    } else if page != SettingsPage::CustomColor && value == EVENT_EE {
        Some(vec![101u8])
    } else {
        None
    }
}

} // verus!
