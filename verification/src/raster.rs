//! Integer raster primitives of the graph view: projected screen points,
//! the 5×7 bitmap font of graph labels, label boxes, and drawing into one
//! 320×8 band of RGB565 pixels.
use vstd::prelude::*;
use crate::keys::Color;

verus! {

pub const SCREEN_WIDTH: usize = 320;
pub const SCREEN_HEIGHT: usize = 240;
/// Rows of pixels composed per band transfer.
pub const BAND_HEIGHT: usize = 8;
/// First screen row of the graph viewport (below the tab header).
pub const GRAPH_TOP: usize = 24;
pub const GLYPH_WIDTH: i32 = 5;
pub const GLYPH_HEIGHT: i32 = 7;
pub const GLYPH_SPACING: i32 = 1;
pub const LABEL_PADDING: i32 = 1;
pub const LABEL_SEPARATION: i32 = 2;

/// Rows of the digits `0`–`9`, then `-`, `.`, `+`; bit 4 is the leftmost
/// pixel.
pub const NUMERIC_GLYPHS: [[u8; 7]; 13] = [
    [0b01110, 0b10001, 0b10011, 0b10101, 0b11001, 0b10001, 0b01110],
    [0b00100, 0b01100, 0b00100, 0b00100, 0b00100, 0b00100, 0b01110],
    [0b01110, 0b10001, 0b00001, 0b00010, 0b00100, 0b01000, 0b11111],
    [0b11110, 0b00001, 0b00001, 0b01110, 0b00001, 0b00001, 0b11110],
    [0b00010, 0b00110, 0b01010, 0b10010, 0b11111, 0b00010, 0b00010],
    [0b11111, 0b10000, 0b10000, 0b11110, 0b00001, 0b00001, 0b11110],
    [0b01110, 0b10000, 0b10000, 0b11110, 0b10001, 0b10001, 0b01110],
    [0b11111, 0b00001, 0b00010, 0b00100, 0b01000, 0b01000, 0b01000],
    [0b01110, 0b10001, 0b10001, 0b01110, 0b10001, 0b10001, 0b01110],
    [0b01110, 0b10001, 0b10001, 0b01111, 0b00001, 0b00001, 0b01110],
    [0b00000, 0b00000, 0b00000, 0b11111, 0b00000, 0b00000, 0b00000],
    [0b00000, 0b00000, 0b00000, 0b00000, 0b00000, 0b00110, 0b00110],
    [0b00000, 0b00100, 0b00100, 0b11111, 0b00100, 0b00100, 0b00000],
];

pub const AXIS_X_GLYPH: [u8; 7] = [0b10001, 0b10001, 0b01010, 0b00100, 0b01010, 0b10001, 0b10001];
pub const AXIS_Y_GLYPH: [u8; 7] = [0b10001, 0b10001, 0b01010, 0b00100, 0b00100, 0b00100, 0b00100];
pub const AXIS_Z_GLYPH: [u8; 7] = [0b11111, 0b00001, 0b00010, 0b00100, 0b01000, 0b10000, 0b11111];

/// Projected pixel position; `x == i16::MIN` marks a point that could not
/// be projected.
#[derive(Clone, Copy, Debug, PartialEq, Eq, Structural)]
pub struct ScreenPoint {
    pub x: i16,
    pub y: i16,
}

/// Both ends of a projected segment.
#[derive(Clone, Copy, Debug, PartialEq, Eq, Structural)]
pub struct ProjectedLine {
    pub start: ScreenPoint,
    pub end: ScreenPoint,
}

impl ScreenPoint {
    /// Sentinel never produced by the bounded projection.
    pub fn invalid() -> (point: ScreenPoint)
        ensures
            point == (ScreenPoint { x: i16::MIN, y: 0 }),
    {
        ScreenPoint { x: i16::MIN, y: 0 }
    }

    /// Whether this point holds a usable projected coordinate.
    pub fn is_visible(self) -> (visible: bool)
        ensures
            visible == (self.x != i16::MIN),
    {
        self.x != i16::MIN
    }
}

/// The point itself when it is usable.
pub fn visible_point(point: ScreenPoint) -> (visible: Option<ScreenPoint>)
    ensures
        visible == if point.x != i16::MIN {
            Some(point)
        } else {
            None
        },
{
    if point.is_visible() {
        Some(point)
    } else {
        None
    }
}

/// Rows of the glyph for `character`: digits, `-`, `.`, `+`, `X`, `Y`, `Z`.
pub open spec fn spec_glyph(character: u8) -> Option<[u8; 7]> {
    if 48 <= character <= 57 {
        Some(NUMERIC_GLYPHS[character - 48])
    } else if character == 45 {
        Some(NUMERIC_GLYPHS[10])
    } else if character == 46 {
        Some(NUMERIC_GLYPHS[11])
    } else if character == 43 {
        Some(NUMERIC_GLYPHS[12])
    } else if character == 88 {
        Some(AXIS_X_GLYPH)
    } else if character == 89 {
        Some(AXIS_Y_GLYPH)
    } else if character == 90 {
        Some(AXIS_Z_GLYPH)
    } else {
        None
    }
}

/// The glyph of `character`, if the label font has one.
pub fn glyph(character: u8) -> (rows: Option<[u8; 7]>)
    ensures
        rows == spec_glyph(character),
{
    if 48 <= character && character <= 57 {
        Some(NUMERIC_GLYPHS[(character - 48) as usize])
    } else if character == 45 {
        Some(NUMERIC_GLYPHS[10])
    } else if character == 46 {
        Some(NUMERIC_GLYPHS[11])
    } else if character == 43 {
        Some(NUMERIC_GLYPHS[12])
    } else if character == 88 {
        Some(AXIS_X_GLYPH)
    } else if character == 89 {
        Some(AXIS_Y_GLYPH)
    } else if character == 90 {
        Some(AXIS_Z_GLYPH)
    } else {
        None
    }
}

/// Index of the first NUL at or after `i`, or the length.
pub open spec fn text_end(text: Seq<u8>, i: int) -> int
    decreases text.len() - i,
{
    if 0 <= i < text.len() && text[i] != 0 {
        text_end(text, i + 1)
    } else {
        i
    }
}

proof fn lemma_text_end(text: Seq<u8>, i: int)
    requires
        0 <= i <= text.len(),
    ensures
        i <= text_end(text, i) <= text.len(),
        forall|k: int| i <= k < text_end(text, i) ==> text[k] != 0,
    decreases text.len() - i,
{
    if i < text.len() && text[i] != 0 {
        lemma_text_end(text, i + 1);
    }
}

/// Pixel width of the label text before its NUL: five pixels per glyph and
/// one between glyphs; `None` when it is empty or has a character without
/// a glyph.
pub open spec fn spec_text_width(text: Seq<u8>) -> Option<i32> {
    let n = text_end(text, 0);
    if exists|k: int| 0 <= k < n && #[trigger] spec_glyph(text[k]) is None {
        None
    } else if n == 0 {
        None
    } else {
        Some((n * GLYPH_WIDTH + (n - 1) * GLYPH_SPACING) as i32)
    }
}

/// Width in pixels of NUL-terminated label text.
pub fn text_width(text: &[u8]) -> (width: Option<i32>)
    requires
        text@.len() < 0x1000_0000,
    ensures
        width == spec_text_width(text@),
{
    proof {
        lemma_text_end(text@, 0);
    }
    let mut characters: usize = 0;
    while characters < text.len() && text[characters] != 0
        invariant
            characters <= text@.len() < 0x1000_0000,
            text_end(text@, characters as int) == text_end(text@, 0),
            forall|k: int| 0 <= k < characters ==> (#[trigger] spec_glyph(text@[k])) is Some,
        decreases text@.len() - characters,
    {
        if glyph(text[characters]).is_none() {
            proof {
                lemma_text_end(text@, characters + 1);
                assert(text_end(text@, characters as int) == text_end(text@, characters + 1));
                assert(0 <= characters < text_end(text@, 0));
            }
            return None;
        }
        characters = characters + 1;
    }
    if characters == 0 {
        None
    } else {
        let n = characters as i32;
        Some(n * GLYPH_WIDTH + (n - 1) * GLYPH_SPACING)
    }
}

/// Inclusive pixel bounds of a label.
#[derive(Clone, Copy, Debug, PartialEq, Eq, Structural)]
pub struct LabelRect {
    pub left: i32,
    pub top: i32,
    pub right: i32,
    pub bottom: i32,
}

/// Graph label kinds; numeric labels carry their own text.
#[derive(Clone, Copy, Debug, PartialEq, Eq, Structural)]
pub enum LabelKind {
    AxisX,
    AxisY,
    AxisZ,
    Number,
}

/// The rectangle grown by `amount` on every side.
pub open spec fn spec_expand(rect: LabelRect, amount: int) -> LabelRect {
    LabelRect {
        left: (rect.left - amount) as i32,
        top: (rect.top - amount) as i32,
        right: (rect.right + amount) as i32,
        bottom: (rect.bottom + amount) as i32,
    }
}

/// Whether the rectangle grown by `amount` stays within `i32`.
pub open spec fn expandable(rect: LabelRect, amount: int) -> bool {
    &&& i32::MIN <= rect.left - amount <= i32::MAX
    &&& i32::MIN <= rect.top - amount <= i32::MAX
    &&& i32::MIN <= rect.right + amount <= i32::MAX
    &&& i32::MIN <= rect.bottom + amount <= i32::MAX
}

/// Grows a rectangle by `amount` on every side.
pub fn expand_label_rect(rect: LabelRect, amount: i32) -> (expanded: LabelRect)
    requires
        expandable(rect, amount as int),
    ensures
        expanded == spec_expand(rect, amount as int),
{
    LabelRect {
        left: rect.left - amount,
        top: rect.top - amount,
        right: rect.right + amount,
        bottom: rect.bottom + amount,
    }
}

/// Whether `first`, grown by `separation`, touches `second`.
pub open spec fn spec_overlap(first: LabelRect, second: LabelRect, separation: int) -> bool {
    &&& first.left - separation <= second.right
    &&& first.right + separation >= second.left
    &&& first.top - separation <= second.bottom
    &&& first.bottom + separation >= second.top
}

/// Whether two label boxes come closer than `separation` pixels.
pub fn label_rects_overlap(first: LabelRect, second: LabelRect, separation: i32) -> (overlap: bool)
    requires
        expandable(first, separation as int),
    ensures
        overlap == spec_overlap(first, second, separation as int),
{
    let first = expand_label_rect(first, separation);
    first.left <= second.right && first.right >= second.left && first.top <= second.bottom
        && first.bottom >= second.top
}

/// Offset of a label's top-left corner from its anchor.
pub open spec fn label_offset(kind: LabelKind) -> (int, int) {
    match kind {
        LabelKind::Number => (4, -9),
        LabelKind::AxisZ => (-11, -12),
        _ => (5, -12),
    }
}

/// Box of a label anchored at `anchor` showing `text`, when the anchor is
/// usable, the text can be drawn, and the box with one pixel of padding
/// stays clear of the screen edges and of the header.
pub open spec fn spec_label_rect(anchor: ScreenPoint, kind: LabelKind, text: Seq<u8>) -> Option<
    LabelRect,
> {
    if anchor.x == i16::MIN {
        None
    } else {
        match spec_text_width(text) {
            None => None,
            Some(width) => {
                let (dx, dy) = label_offset(kind);
                let left = anchor.x + dx;
                let top = anchor.y + dy;
                let right = anchor.x + dx + width - 1;
                let bottom = anchor.y + dy + GLYPH_HEIGHT - 1;
                if left - LABEL_PADDING < 1 || right + LABEL_PADDING >= SCREEN_WIDTH - 1 || top
                    - LABEL_PADDING < GRAPH_TOP + 1 || bottom + LABEL_PADDING >= SCREEN_HEIGHT - 1 {
                    None
                } else {
                    Some(
                        LabelRect {
                            left: left as i32,
                            top: top as i32,
                            right: right as i32,
                            bottom: bottom as i32,
                        },
                    )
                }
            },
        }
    }
}

/// A label box, with its padding, lies on the screen below the header, and
/// its anchor lies near the screen.
pub proof fn label_box_is_on_screen(anchor: ScreenPoint, kind: LabelKind, text: Seq<u8>)
    requires
        text.len() < 0x1000_0000,
    ensures
        spec_label_rect(anchor, kind, text) matches Some(rect) ==> {
            &&& on_screen(rect)
            &&& 2 <= rect.left && rect.right <= 317
            &&& GRAPH_TOP + 2 <= rect.top && rect.bottom <= SCREEN_HEIGHT - 3
            &&& -16 <= anchor.x <= 336 && GRAPH_TOP <= anchor.y <= SCREEN_HEIGHT + 16
        },
{
    lemma_text_end(text, 0);
}

/// Box of a label (see [`spec_label_rect`]).
pub fn label_rect(anchor: ScreenPoint, kind: LabelKind, text: &[u8]) -> (rect: Option<LabelRect>)
    requires
        text@.len() < 0x1000_0000,
    ensures
        rect == spec_label_rect(anchor, kind, text@),
{
    if !anchor.is_visible() {
        return None;
    }
    let width = match text_width(text) {
        Some(width) => width,
        None => return None,
    };
    proof {
        lemma_text_end(text@, 0);
    }
    let (x_offset, y_offset): (i32, i32) = match kind {
        LabelKind::Number => (4, -9),
        LabelKind::AxisZ => (-11, -12),
        _ => (5, -12),
    };
    let rect = LabelRect {
        left: anchor.x as i32 + x_offset,
        top: anchor.y as i32 + y_offset,
        right: anchor.x as i32 + x_offset + width - 1,
        bottom: anchor.y as i32 + y_offset + GLYPH_HEIGHT - 1,
    };
    let padded = expand_label_rect(rect, LABEL_PADDING);
    if padded.left < 1 || padded.right >= SCREEN_WIDTH as i32 - 1 || padded.top < GRAPH_TOP as i32
        + 1 || padded.bottom >= SCREEN_HEIGHT as i32 - 1 {
        None
    } else {
        Some(rect)
    }
}

/// Squared pixel distance from a point to the nearest point of `rect`.
pub open spec fn rect_distance_squared(rect: LabelRect, point: ScreenPoint) -> int {
    let x = point.x as int;
    let y = point.y as int;
    let dx = if x < rect.left {
        rect.left - x
    } else if x > rect.right {
        x - rect.right
    } else {
        0
    };
    let dy = if y < rect.top {
        rect.top - y
    } else if y > rect.bottom {
        y - rect.bottom
    } else {
        0
    };
    dx * dx + dy * dy
}

/// Usable projected points lie within a bounded margin around the screen.
pub open spec fn projection_bounded(point: ScreenPoint) -> bool {
    point.x == i16::MIN || (-512 <= point.x <= 831 && -512 <= point.y <= 751)
}

/// Whether a rectangle lies within the screen.
pub open spec fn on_screen(rect: LabelRect) -> bool {
    0 <= rect.left <= rect.right < SCREEN_WIDTH && 0 <= rect.top <= rect.bottom < SCREEN_HEIGHT
}

/// Smallest squared distance from `rect` to a usable point of `points`, or
/// `i32::MAX` when there is none.
pub open spec fn spec_surface_distance(rect: LabelRect, points: Seq<ScreenPoint>) -> int
    decreases points.len(),
{
    if points.len() == 0 {
        i32::MAX as int
    } else {
        let rest = spec_surface_distance(rect, points.drop_last());
        let last = points.last();
        if last.x != i16::MIN && rect_distance_squared(rect, last) < rest {
            rect_distance_squared(rect, last)
        } else {
            rest
        }
    }
}

/// Smallest squared distance from `rect` to a usable projected surface
/// point, or `i32::MAX` when there is none.
pub fn surface_distance_squared(rect: LabelRect, projected_surface: &[ScreenPoint]) -> (minimum: i32)
    requires
        on_screen(rect),
        forall|k: int|
            0 <= k < projected_surface@.len() ==> projection_bounded(#[trigger] projected_surface@[k]),
    ensures
        forall|k: int|
            0 <= k < projected_surface@.len() && projected_surface@[k].x != i16::MIN ==> minimum
                <= rect_distance_squared(rect, #[trigger] projected_surface@[k]),
        minimum == i32::MAX || exists|k: int|
            0 <= k < projected_surface@.len() && projected_surface@[k].x != i16::MIN && minimum
                == rect_distance_squared(rect, #[trigger] projected_surface@[k]),
        minimum == spec_surface_distance(rect, projected_surface@),
{
    let mut minimum = i32::MAX;
    let mut index: usize = 0;
    while index < projected_surface.len()
        invariant
            index <= projected_surface@.len(),
            on_screen(rect),
            forall|k: int|
                0 <= k < projected_surface@.len() ==> projection_bounded(
                    #[trigger] projected_surface@[k],
                ),
            forall|k: int|
                0 <= k < index && projected_surface@[k].x != i16::MIN ==> minimum
                    <= rect_distance_squared(rect, #[trigger] projected_surface@[k]),
            minimum == i32::MAX || exists|k: int|
                0 <= k < index && projected_surface@[k].x != i16::MIN && minimum
                    == rect_distance_squared(rect, #[trigger] projected_surface@[k]),
            minimum == spec_surface_distance(rect, projected_surface@.subrange(0, index as int)),
        decreases projected_surface@.len() - index,
    {
        proof {
            assert(projected_surface@.subrange(0, index + 1).drop_last() =~= projected_surface@.subrange(
                0,
                index as int,
            ));
        }
        let point = projected_surface[index];
        if point.is_visible() {
            let x = point.x as i32;
            let y = point.y as i32;
            let dx: i32 = if x < rect.left {
                rect.left - x
            } else if x > rect.right {
                x - rect.right
            } else {
                0
            };
            let dy: i32 = if y < rect.top {
                rect.top - y
            } else if y > rect.bottom {
                y - rect.bottom
            } else {
                0
            };
            proof {
                assert(projection_bounded(projected_surface@[index as int]));
                assert(0 <= dx <= 2000 && 0 <= dy <= 2000);
                assert(dx * dx <= 2000 * 2000) by (nonlinear_arith)
                    requires
                        0 <= dx <= 2000,
                ;
                assert(dy * dy <= 2000 * 2000) by (nonlinear_arith)
                    requires
                        0 <= dy <= 2000,
                ;
            }
            let distance = dx * dx + dy * dy;
            assert(distance == rect_distance_squared(rect, projected_surface@[index as int]));
            if distance < minimum {
                minimum = distance;
            }
        }
        index = index + 1;
    }
    proof {
        assert(projected_surface@.subrange(0, index as int) =~= projected_surface@);
    }
    minimum
}

/// Usable points that lines are drawn between lie well inside `i16`.
pub open spec fn line_bounded(point: ScreenPoint) -> bool {
    point.x == i16::MIN || (-1024 <= point.x <= 1024 && -1024 <= point.y <= 1024)
}

/// Points of the line from `(xs, ys)`, stepping `sx`/`sy` along x/y, after
/// `i` steps in x and `j` steps in y of `dx` and `dy` in all. Each step
/// moves in x when twice the error term is at least `-dy` and in y when it
/// is at most `dx`, the error term being `dx * (1 + j) - dy * (1 + i)`.
pub open spec fn line_walk(xs: int, ys: int, sx: int, sy: int, dx: int, dy: int, i: int, j: int) -> Seq<(int, int)>
    decreases (dx - i) + (dy - j),
{
    let point = (xs + sx * i, ys + sy * j);
    if !(0 <= i <= dx && 0 <= j <= dy) {
        Seq::empty()
    } else if i == dx && j == dy {
        seq![point]
    } else {
        let twice_error = 2 * (dx * (1 + j) - dy * (1 + i));
        let ni = if twice_error >= -dy {
            i + 1
        } else {
            i
        };
        let nj = if twice_error <= dx {
            j + 1
        } else {
            j
        };
        if ni <= dx && nj <= dy && i + j < ni + nj {
            seq![point] + line_walk(xs, ys, sx, sy, dx, dy, ni, nj)
        } else {
            seq![point]
        }
    }
}

/// Pixels of the line from `start` to `end` (Bresenham's algorithm).
pub open spec fn line_points(start: ScreenPoint, end: ScreenPoint) -> Seq<(int, int)> {
    let xs = start.x as int;
    let ys = start.y as int;
    let xe = end.x as int;
    let ye = end.y as int;
    line_walk(
        xs,
        ys,
        if xs < xe {
            1
        } else {
            -1
        },
        if ys < ye {
            1
        } else {
            -1
        },
        if xs < xe {
            xe - xs
        } else {
            xs - xe
        },
        if ys < ye {
            ye - ys
        } else {
            ys - ye
        },
        0,
        0,
    )
}

/// Whether screen pixel `point` lies in the band starting at row `band_y`.
pub open spec fn in_band(point: (int, int), band_y: int) -> bool {
    0 <= point.0 < SCREEN_WIDTH && band_y <= point.1 < band_y + BAND_HEIGHT
}

/// Index of an in-band pixel in the band buffer.
pub open spec fn band_index(point: (int, int), band_y: int) -> int {
    (point.1 - band_y) * SCREEN_WIDTH + point.0
}

/// Whether some in-band point of `points` lands on buffer index `k`.
pub open spec fn covers(points: Seq<(int, int)>, band_y: int, k: int) -> bool {
    exists|m: int|
        0 <= m < points.len() && in_band(#[trigger] points[m], band_y) && band_index(points[m], band_y)
            == k
}

/// The band after drawing a line: every pixel of the line inside the band
/// takes `color` (nothing changes when an end is unusable or the line
/// misses the band).
pub open spec fn line_drawn(
    before: Seq<Color>,
    band_y: int,
    start: ScreenPoint,
    end: ScreenPoint,
    color: Color,
) -> Seq<Color> {
    let min_y = if start.y < end.y {
        start.y as int
    } else {
        end.y as int
    };
    let max_y = if start.y > end.y {
        start.y as int
    } else {
        end.y as int
    };
    if start.x == i16::MIN || end.x == i16::MIN || max_y < band_y || min_y > band_y + BAND_HEIGHT
        - 1 {
        before
    } else {
        Seq::new(
            before.len(),
            |k: int|
                if covers(line_points(start, end), band_y, k) {
                    color
                } else {
                    before[k]
                },
        )
    }
}

proof fn lemma_line_step(dx: int, dy: int, i: int, j: int)
    requires
        0 <= i <= dx,
        0 <= j <= dy,
        !(i == dx && j == dy),
    ensures
        ({
            let twice_error = 2 * (dx * (1 + j) - dy * (1 + i));
            &&& (twice_error >= -dy ==> i < dx)
            &&& (twice_error <= dx ==> j < dy)
            &&& (twice_error >= -dy || twice_error <= dx)
        }),
{
    let twice_error = 2 * (dx * (1 + j) - dy * (1 + i));
    if i == dx {
        assert(j < dy);
        assert(twice_error < -dy) by (nonlinear_arith)
            requires
                twice_error == 2 * (dx * (1 + j) - dy * (1 + i)),
                i == dx,
                0 <= j < dy,
                0 <= dx,
        ;
    }
    if j == dy {
        assert(i < dx);
        assert(twice_error > dx) by (nonlinear_arith)
            requires
                twice_error == 2 * (dx * (1 + j) - dy * (1 + i)),
                j == dy,
                0 <= i < dx,
                0 <= dy,
        ;
    }
}

proof fn lemma_error_bound(dx: int, dy: int, i: int, j: int)
    requires
        0 <= i <= dx <= 2048,
        0 <= j <= dy <= 2048,
    ensures
        -5000000 <= dx * (1 + j) - dy * (1 + i) <= 5000000,
{
    assert(0 <= dx * (1 + j) <= 2048 * 2049) by (nonlinear_arith)
        requires
            0 <= dx <= 2048,
            0 <= j <= 2048,
    ;
    assert(0 <= dy * (1 + i) <= 2048 * 2049) by (nonlinear_arith)
        requires
            0 <= dy <= 2048,
            0 <= i <= 2048,
    ;
}

proof fn lemma_covers_push(points: Seq<(int, int)>, point: (int, int), band_y: int, k: int)
    ensures
        covers(points.push(point), band_y, k) == (covers(points, band_y, k) || (in_band(point, band_y)
            && band_index(point, band_y) == k)),
{
    let pushed = points.push(point);
    if covers(pushed, band_y, k) {
        let m = choose|m: int|
            0 <= m < pushed.len() && in_band(#[trigger] pushed[m], band_y) && band_index(pushed[m], band_y)
                == k;
        if m < points.len() {
            assert(pushed[m] == points[m]);
        }
    }
    if covers(points, band_y, k) {
        let m = choose|m: int|
            0 <= m < points.len() && in_band(#[trigger] points[m], band_y) && band_index(points[m], band_y)
                == k;
        assert(pushed[m] == points[m]);
    }
    if in_band(point, band_y) && band_index(point, band_y) == k {
        assert(pushed[points.len() as int] == point);
    }
}

/// Draws the line from `start` to `end` into the band of rows
/// `band_y .. band_y + 8`.
#[verifier::spinoff_prover]
pub fn draw_line(pixels: &mut [Color], band_y: usize, start: ScreenPoint, end: ScreenPoint, color: Color)
    requires
        band_y <= SCREEN_HEIGHT,
        line_bounded(start),
        line_bounded(end),
    ensures
        final(pixels)@ == line_drawn(old(pixels)@, band_y as int, start, end, color),
{
    if !start.is_visible() || !end.is_visible() {
        return;
    }
    let band_bottom = band_y as i32 + BAND_HEIGHT as i32 - 1;
    let min_y: i32 = if start.y < end.y {
        start.y as i32
    } else {
        end.y as i32
    };
    let max_y: i32 = if start.y > end.y {
        start.y as i32
    } else {
        end.y as i32
    };
    if max_y < band_y as i32 || min_y > band_bottom {
        return;
    }
    let ghost before = pixels@;
    let xs = start.x as i32;
    let ys = start.y as i32;
    let x1 = end.x as i32;
    let y1 = end.y as i32;
    let dx: i32 = if xs < x1 {
        x1 - xs
    } else {
        xs - x1
    };
    let sx: i32 = if xs < x1 {
        1
    } else {
        -1
    };
    let dy_abs: i32 = if ys < y1 {
        y1 - ys
    } else {
        ys - y1
    };
    let dy: i32 = -dy_abs;
    let sy: i32 = if ys < y1 {
        1
    } else {
        -1
    };
    let mut error: i32 = dx + dy;
    let mut x0 = xs;
    let mut y0 = ys;
    let ghost points = line_points(start, end);
    let ghost mut i: int = 0;
    let ghost mut j: int = 0;
    let ghost mut visited: Seq<(int, int)> = Seq::empty();
    proof {
        assert(points =~= visited + line_walk(
            xs as int,
            ys as int,
            sx as int,
            sy as int,
            dx as int,
            dy_abs as int,
            0,
            0,
        ));
        assert(dx * (1 + j) == dx) by (nonlinear_arith)
            requires
                j == 0,
        ;
        assert(dy_abs * (1 + i) == dy_abs) by (nonlinear_arith)
            requires
                i == 0,
        ;
    }
    loop
        invariant_except_break
            points == visited + line_walk(
                xs as int,
                ys as int,
                sx as int,
                sy as int,
                dx as int,
                dy_abs as int,
                i,
                j,
            ),
        invariant
            0 <= i <= dx <= 2048,
            0 <= j <= dy_abs <= 2048,
            dy == -dy_abs,
            x0 == xs + sx * i,
            y0 == ys + sy * j,
            sx == 1 || sx == -1,
            sy == 1 || sy == -1,
            x1 == xs + sx * dx,
            y1 == ys + sy * dy_abs,
            -1024 <= xs <= 1024,
            -1024 <= ys <= 1024,
            -1024 <= x1 <= 1024,
            -1024 <= y1 <= 1024,
            error == dx * (1 + j) - dy_abs * (1 + i),
            band_y <= SCREEN_HEIGHT,
            band_bottom == band_y + BAND_HEIGHT - 1,
            pixels@.len() == before.len(),
            forall|k: int|
                0 <= k < before.len() ==> #[trigger] pixels@[k] == if covers(visited, band_y as int, k) {
                    color
                } else {
                    before[k]
                },
        ensures
            points == visited,
            pixels@.len() == before.len(),
            forall|k: int|
                0 <= k < before.len() ==> #[trigger] pixels@[k] == if covers(visited, band_y as int, k) {
                    color
                } else {
                    before[k]
                },
        decreases (dx - i) + (dy_abs - j),
    {
        let ghost here = (x0 as int, y0 as int);
        proof {
            assert(line_walk(xs as int, ys as int, sx as int, sy as int, dx as int, dy_abs as int, i, j)[0] == here);
        }
        if x0 >= 0 && x0 < SCREEN_WIDTH as i32 && y0 >= band_y as i32 && y0 <= band_bottom {
            let local_y = (y0 - band_y as i32) as usize;
            let index = local_y * SCREEN_WIDTH + x0 as usize;
            if index < pixels.len() {
                pixels[index] = color;
            }
        }
        proof {
            let next_visited = visited.push(here);
            assert forall|k: int| 0 <= k < before.len() implies #[trigger] pixels@[k] == if covers(
                next_visited,
                band_y as int,
                k,
            ) {
                color
            } else {
                before[k]
            } by {
                lemma_covers_push(visited, here, band_y as int, k);
            }
            visited = next_visited;
        }
        if x0 == x1 && y0 == y1 {
            proof {
                assert(i == dx) by (nonlinear_arith)
                    requires
                        xs + sx * i == xs + sx * dx,
                        sx == 1 || sx == -1,
                ;
                assert(j == dy_abs) by (nonlinear_arith)
                    requires
                        ys + sy * j == ys + sy * dy_abs,
                        sy == 1 || sy == -1,
                ;
                assert(points =~= visited);
            }
            break;
        }
        proof {
            lemma_line_step(dx as int, dy_abs as int, i, j);
            lemma_error_bound(dx as int, dy_abs as int, i, j);
        }
        let twice_error = 2 * error;
        let ghost ni = if twice_error >= dy {
            i + 1
        } else {
            i
        };
        let ghost nj = if twice_error <= dx {
            j + 1
        } else {
            j
        };
        proof {
            assert(line_walk(xs as int, ys as int, sx as int, sy as int, dx as int, dy_abs as int, i, j)
                =~= seq![here] + line_walk(xs as int, ys as int, sx as int, sy as int, dx as int, dy_abs as int, ni, nj));
            assert(xs + sx * ni == x0 + (ni - i) * sx) by (nonlinear_arith)
                requires
                    x0 == xs + sx * i,
                    ni == i || ni == i + 1,
            ;
            assert(ys + sy * nj == y0 + (nj - j) * sy) by (nonlinear_arith)
                requires
                    y0 == ys + sy * j,
                    nj == j || nj == j + 1,
            ;
            assert(-1024 <= xs + sx * ni <= 2048 + 1024) by (nonlinear_arith)
                requires
                    0 <= ni <= dx <= 2048,
                    -1024 <= xs <= 1024,
                    sx == 1 || sx == -1,
                    x1 == xs + sx * dx,
                    -1024 <= x1 <= 1024,
            ;
            assert(-1024 <= ys + sy * nj <= 2048 + 1024) by (nonlinear_arith)
                requires
                    0 <= nj <= dy_abs <= 2048,
                    -1024 <= ys <= 1024,
                    sy == 1 || sy == -1,
                    y1 == ys + sy * dy_abs,
                    -1024 <= y1 <= 1024,
            ;
        }
        if twice_error >= dy {
            error = error + dy;
            x0 = x0 + sx;
        }
        if twice_error <= dx {
            error = error + dx;
            y0 = y0 + sy;
        }
        proof {
            if nj == j + 1 {
                assert(dx * (1 + nj) == dx * (1 + j) + dx) by (nonlinear_arith)
                    requires
                        nj == j + 1,
                ;
            }
            if ni == i + 1 {
                assert(dy_abs * (1 + ni) == dy_abs * (1 + i) + dy_abs) by (nonlinear_arith)
                    requires
                        ni == i + 1,
                ;
            }
            i = ni;
            j = nj;
            assert(points =~= visited + line_walk(
                xs as int,
                ys as int,
                sx as int,
                sy as int,
                dx as int,
                dy_abs as int,
                i,
                j,
            ));
        }
    }
    proof {
        assert(pixels@ =~= line_drawn(before, band_y as int, start, end, color));
    }
}

proof fn lemma_walk(xs: int, ys: int, sx: int, sy: int, dx: int, dy: int, i: int, j: int)
    requires
        0 <= i <= dx,
        0 <= j <= dy,
        sx == 1 || sx == -1,
        sy == 1 || sy == -1,
    ensures
        line_walk(xs, ys, sx, sy, dx, dy, i, j).len() >= 1,
        line_walk(xs, ys, sx, sy, dx, dy, i, j)[0] == (xs + sx * i, ys + sy * j),
        line_walk(xs, ys, sx, sy, dx, dy, i, j).last() == (xs + sx * dx, ys + sy * dy),
        forall|m: int|
            0 <= m < line_walk(xs, ys, sx, sy, dx, dy, i, j).len() - 1 ==> {
                let a = #[trigger] line_walk(xs, ys, sx, sy, dx, dy, i, j)[m];
                let b = line_walk(xs, ys, sx, sy, dx, dy, i, j)[m + 1];
                -1 <= b.0 - a.0 <= 1 && -1 <= b.1 - a.1 <= 1
            },
    decreases (dx - i) + (dy - j),
{
    let walk = line_walk(xs, ys, sx, sy, dx, dy, i, j);
    if !(i == dx && j == dy) {
        lemma_line_step(dx, dy, i, j);
        let twice_error = 2 * (dx * (1 + j) - dy * (1 + i));
        let ni = if twice_error >= -dy {
            i + 1
        } else {
            i
        };
        let nj = if twice_error <= dx {
            j + 1
        } else {
            j
        };
        lemma_walk(xs, ys, sx, sy, dx, dy, ni, nj);
        let rest = line_walk(xs, ys, sx, sy, dx, dy, ni, nj);
        assert(walk == seq![(xs + sx * i, ys + sy * j)] + rest);
        assert(sx * ni - sx * i == if ni == i + 1 { sx } else { 0 }) by (nonlinear_arith)
            requires
                ni == i || ni == i + 1,
        ;
        assert(sy * nj - sy * j == if nj == j + 1 { sy } else { 0 }) by (nonlinear_arith)
            requires
                nj == j || nj == j + 1,
        ;
        assert forall|m: int| 0 <= m < walk.len() - 1 implies {
            let a = #[trigger] walk[m];
            let b = walk[m + 1];
            -1 <= b.0 - a.0 <= 1 && -1 <= b.1 - a.1 <= 1
        } by {
            if m > 0 {
                assert(walk[m] == rest[m - 1]);
                assert(walk[m + 1] == rest[m]);
            }
        }
    }
}

/// A drawn line starts at its first end, finishes at its second, and each
/// pixel touches the previous one (8-connected), so no gap appears.
pub proof fn line_connects_its_ends(start: ScreenPoint, end: ScreenPoint)
    ensures
        line_points(start, end).len() >= 1,
        line_points(start, end)[0] == (start.x as int, start.y as int),
        line_points(start, end).last() == (end.x as int, end.y as int),
        forall|m: int|
            0 <= m < line_points(start, end).len() - 1 ==> {
                let a = #[trigger] line_points(start, end)[m];
                let b = line_points(start, end)[m + 1];
                -1 <= b.0 - a.0 <= 1 && -1 <= b.1 - a.1 <= 1
            },
{
    let xs = start.x as int;
    let ys = start.y as int;
    let xe = end.x as int;
    let ye = end.y as int;
    let sx: int = if xs < xe {
        1
    } else {
        -1
    };
    let sy: int = if ys < ye {
        1
    } else {
        -1
    };
    let dx = if xs < xe {
        xe - xs
    } else {
        xs - xe
    };
    let dy = if ys < ye {
        ye - ys
    } else {
        ys - ye
    };
    lemma_walk(xs, ys, sx, sy, dx, dy, 0, 0);
}

/// Whether band index `k` lies on a pixel of `rect` (rows counted from
/// `band_y`).
pub open spec fn rect_covers(rect: LabelRect, band_y: int, k: int) -> bool {
    &&& 0 <= k < SCREEN_WIDTH * BAND_HEIGHT
    &&& rect.left <= k % (SCREEN_WIDTH as int) <= rect.right
    &&& rect.top <= band_y + k / (SCREEN_WIDTH as int) <= rect.bottom
}

/// The band after filling the part of `rect` inside it with `color`.
pub open spec fn rect_filled(before: Seq<Color>, band_y: int, rect: LabelRect, color: Color) -> Seq<Color> {
    Seq::new(
        before.len(),
        |k: int|
            if rect_covers(rect, band_y, k) {
                color
            } else {
                before[k]
            },
    )
}

proof fn lemma_band_position(row: int, column: int)
    requires
        0 <= row,
        0 <= column < SCREEN_WIDTH,
    ensures
        (row * (SCREEN_WIDTH as int) + column) / (SCREEN_WIDTH as int) == row,
        (row * (SCREEN_WIDTH as int) + column) % (SCREEN_WIDTH as int) == column,
{
    vstd::arithmetic::div_mod::lemma_fundamental_div_mod_converse(
        row * (SCREEN_WIDTH as int) + column,
        SCREEN_WIDTH as int,
        row,
        column,
    );
}

proof fn lemma_band_index_unique(k: int)
    requires
        0 <= k,
    ensures
        k == (k / (SCREEN_WIDTH as int)) * (SCREEN_WIDTH as int) + k % (SCREEN_WIDTH as int),
        0 <= k % (SCREEN_WIDTH as int) < SCREEN_WIDTH,
        0 <= k / (SCREEN_WIDTH as int),
{
    vstd::arithmetic::div_mod::lemma_fundamental_div_mod(k, SCREEN_WIDTH as int);
}

/// Fills the part of `rect` that lies in the band with `color`.
pub fn fill_band_rect(pixels: &mut [Color], band_y: usize, rect: LabelRect, color: Color)
    requires
        band_y <= SCREEN_HEIGHT,
    ensures
        final(pixels)@ == rect_filled(old(pixels)@, band_y as int, rect, color),
{
    let ghost before = pixels@;
    let band_top = band_y as i32;
    let top = if rect.top > band_top {
        rect.top
    } else {
        band_top
    };
    let bottom = if rect.bottom < band_top + BAND_HEIGHT as i32 - 1 {
        rect.bottom
    } else {
        band_top + BAND_HEIGHT as i32 - 1
    };
    if top > bottom {
        proof {
            assert forall|k: int| 0 <= k < before.len() implies !rect_covers(rect, band_y as int, k) by {
                if rect_covers(rect, band_y as int, k) {
                    lemma_band_index_unique(k);
                }
            }
            assert(pixels@ =~= rect_filled(before, band_y as int, rect, color));
        }
        return;
    }
    let left = if rect.left > 0 {
        rect.left
    } else {
        0
    };
    let right = if rect.right < SCREEN_WIDTH as i32 - 1 {
        rect.right
    } else {
        SCREEN_WIDTH as i32 - 1
    };
    let mut y = top;
    while y <= bottom
        invariant
            band_y <= SCREEN_HEIGHT,
            band_top == band_y,
            top == if rect.top > band_top { rect.top } else { band_top },
            bottom == if rect.bottom < band_top + 7 { rect.bottom as int } else { band_top + 7 },
            left == if rect.left > 0 { rect.left } else { 0 },
            right == if rect.right < 319 { rect.right } else { 319 },
            top <= y <= bottom + 1,
            pixels@.len() == before.len(),
            forall|k: int|
                0 <= k < before.len() ==> #[trigger] pixels@[k] == if rect_covers(rect, band_y as int, k)
                    && band_y + k / (SCREEN_WIDTH as int) < y {
                    color
                } else {
                    before[k]
                },
        decreases bottom + 1 - y,
    {
        let mut x = left;
        while x <= right
            invariant
                band_y <= SCREEN_HEIGHT,
                band_top == band_y,
                top == if rect.top > band_top { rect.top } else { band_top },
                bottom == if rect.bottom < band_top + 7 { rect.bottom as int } else { band_top + 7 },
                left == if rect.left > 0 { rect.left } else { 0 },
                right == if rect.right < 319 { rect.right } else { 319 },
                top <= y <= bottom,
                left <= x <= right + 1 || (left > right && x == left),
                pixels@.len() == before.len(),
                forall|k: int|
                    0 <= k < before.len() ==> #[trigger] pixels@[k] == if rect_covers(
                        rect,
                        band_y as int,
                        k,
                    ) && (band_y + k / (SCREEN_WIDTH as int) < y || (band_y + k / (SCREEN_WIDTH as int)
                        == y && k % (SCREEN_WIDTH as int) < x)) {
                        color
                    } else {
                        before[k]
                    },
            decreases right + 1 - x,
        {
            let local_y = (y - band_top) as usize;
            let index = local_y * SCREEN_WIDTH + x as usize;
            let ghost previous = pixels@;
            if index < pixels.len() {
                pixels[index] = color;
            }
            proof {
                lemma_band_position(local_y as int, x as int);
                assert forall|k: int| 0 <= k < before.len() implies #[trigger] pixels@[k] == if rect_covers(
                    rect,
                    band_y as int,
                    k,
                ) && (band_y + k / (SCREEN_WIDTH as int) < y || (band_y + k / (SCREEN_WIDTH as int) == y
                    && k % (SCREEN_WIDTH as int) < x + 1)) {
                    color
                } else {
                    before[k]
                } by {
                    lemma_band_index_unique(k);
                    if k != index {
                        assert(pixels@[k] == previous[k]);
                        if band_y + k / (SCREEN_WIDTH as int) == y && k % (SCREEN_WIDTH as int) == x {
                            assert(k == (k / (SCREEN_WIDTH as int)) * (SCREEN_WIDTH as int) + k % (SCREEN_WIDTH as int));
                        }
                    }
                }
            }
            x = x + 1;
        }
        proof {
            assert forall|k: int| 0 <= k < before.len() implies #[trigger] pixels@[k] == if rect_covers(
                rect,
                band_y as int,
                k,
            ) && band_y + k / (SCREEN_WIDTH as int) < y + 1 {
                color
            } else {
                before[k]
            } by {
                lemma_band_index_unique(k);
            }
        }
        y = y + 1;
    }
    proof {
        assert forall|k: int| 0 <= k < before.len() implies #[trigger] pixels@[k] == rect_filled(
            before,
            band_y as int,
            rect,
            color,
        )[k] by {
            lemma_band_index_unique(k);
        }
        assert(pixels@ =~= rect_filled(before, band_y as int, rect, color));
    }
}

/// The band after drawing the origin marker: a horizontal then a vertical
/// five-pixel stroke through it; nothing without a marker.
pub open spec fn origin_drawn(before: Seq<Color>, band_y: int, origin: Option<ScreenPoint>, color: Color) -> Seq<
    Color,
> {
    match origin {
        None => before,
        Some(point) => line_drawn(
            line_drawn(
                before,
                band_y,
                ScreenPoint { x: (point.x - 2) as i16, y: point.y },
                ScreenPoint { x: (point.x + 2) as i16, y: point.y },
                color,
            ),
            band_y,
            ScreenPoint { x: point.x, y: (point.y - 2) as i16 },
            ScreenPoint { x: point.x, y: (point.y + 2) as i16 },
            color,
        ),
    }
}

/// Draws a five-pixel cross centered on the origin marker, when there is one.
pub fn draw_origin(pixels: &mut [Color], band_y: usize, origin: Option<ScreenPoint>, color: Color)
    requires
        band_y <= SCREEN_HEIGHT,
        origin matches Some(point) ==> -1000 <= point.x <= 1000 && -1000 <= point.y <= 1000,
    ensures
        final(pixels)@ == origin_drawn(old(pixels)@, band_y as int, origin, color),
{
    if let Some(point) = origin {
        draw_line(
            pixels,
            band_y,
            ScreenPoint { x: point.x - 2, y: point.y },
            ScreenPoint { x: point.x + 2, y: point.y },
            color,
        );
        draw_line(
            pixels,
            band_y,
            ScreenPoint { x: point.x, y: point.y - 2 },
            ScreenPoint { x: point.x, y: point.y + 2 },
            color,
        );
    }
}

/// Whether column `gx` (0 at the left) of row `gy` of the glyph of
/// `character` is lit.
pub open spec fn glyph_bit(character: u8, gy: int, gx: int) -> bool {
    match spec_glyph(character) {
        Some(rows) => rows[gy] & (1u8 << ((4 - gx) as u8)) != 0,
        None => false,
    }
}

/// Lit pixels among the first `n` glyph cells of `text` drawn from
/// `(left, top)`, in order of character, row, and column; characters are
/// six pixels apart.
pub open spec fn glyph_points(left: int, top: int, text: Seq<u8>, n: int) -> Seq<(int, int)>
    decreases n,
{
    if n <= 0 {
        Seq::empty()
    } else {
        let t = n - 1;
        let character = t / 35;
        let gy = (t % 35) / 5;
        let gx = t % 5;
        glyph_points(left, top, text, n - 1) + if glyph_bit(text[character], gy, gx) {
            seq![(left + character * (GLYPH_WIDTH + GLYPH_SPACING) + gx, top + gy)]
        } else {
            Seq::empty()
        }
    }
}

/// The band after drawing a label: the lit pixels of its text inside the
/// band take `color`; nothing changes when the label has no box.
pub open spec fn label_drawn(
    before: Seq<Color>,
    band_y: int,
    anchor: ScreenPoint,
    kind: LabelKind,
    text: Seq<u8>,
    color: Color,
) -> Seq<Color> {
    match spec_label_rect(anchor, kind, text) {
        None => before,
        Some(rect) => Seq::new(
            before.len(),
            |k: int|
                if covers(
                    glyph_points(rect.left as int, rect.top as int, text, text_end(text, 0) * 35),
                    band_y,
                    k,
                ) {
                    color
                } else {
                    before[k]
                },
        ),
    }
}

/// Draws a label's text with the 5×7 font into the band.
#[verifier::spinoff_prover]
pub fn draw_label(
    pixels: &mut [Color],
    band_y: usize,
    anchor: ScreenPoint,
    kind: LabelKind,
    text: &[u8],
    color: Color,
)
    requires
        band_y <= SCREEN_HEIGHT,
        text@.len() < 0x1000_0000,
    ensures
        final(pixels)@ == label_drawn(old(pixels)@, band_y as int, anchor, kind, text@, color),
{
    let rect = match label_rect(anchor, kind, text) {
        Some(rect) => rect,
        None => return,
    };
    proof {
        lemma_text_end(text@, 0);
    }
    let mut characters: usize = 0;
    while characters < text.len() && text[characters] != 0
        invariant
            characters <= text@.len() < 0x1000_0000,
            text_end(text@, characters as int) == text_end(text@, 0),
        decreases text@.len() - characters,
    {
        characters = characters + 1;
    }
    proof {
        assert(characters == text_end(text@, 0));
        assert(characters <= 60) by {
            assert(spec_text_width(text@) is Some);
        }
    }
    let ghost before = pixels@;
    let ghost mut visited: Seq<(int, int)> = Seq::empty();
    let total = characters * 35;
    let mut t: usize = 0;
    while t < total
        invariant
            t <= total == characters * 35,
            characters == text_end(text@, 0),
            characters <= text@.len(),
            characters <= 60,
            band_y <= SCREEN_HEIGHT,
            spec_label_rect(anchor, kind, text@) == Some(rect),
            -2000 <= rect.left <= 400,
            -2000 <= rect.top <= 400,
            visited == glyph_points(rect.left as int, rect.top as int, text@, t as int),
            pixels@.len() == before.len(),
            forall|k: int|
                0 <= k < before.len() ==> #[trigger] pixels@[k] == if covers(visited, band_y as int, k) {
                    color
                } else {
                    before[k]
                },
        decreases total - t,
    {
        let character = t / 35;
        let gy = (t % 35) / 5;
        let gx = t % 5;
        proof {
            assert(character < characters) by (nonlinear_arith)
                requires
                    t < characters * 35,
                    character == t / 35,
            ;
        }
        let rows = match glyph(text[character]) {
            Some(rows) => rows,
            None => [0u8; 7],
        };
        let lit = rows[gy] & (1u8 << ((4 - gx) as u8)) != 0;
        assert(character < 60 && gx < 5 && gy < 7);
        assert(-2000 <= rect.left <= 400 && -2000 <= rect.top <= 400);
        let column_offset: i32 = character as i32 * (GLYPH_WIDTH + GLYPH_SPACING);
        assert(0 <= column_offset < 360);
        let screen_x = rect.left + column_offset + gx as i32;
        let screen_y = rect.top + gy as i32;
        let ghost here = (screen_x as int, screen_y as int);
        proof {
            lemma_text_end(text@, 0);
            assert(text@[character as int] != 0);
        }
        if lit && screen_x >= 0 && screen_x < SCREEN_WIDTH as i32 && screen_y >= band_y as i32
            && screen_y < band_y as i32 + BAND_HEIGHT as i32 {
            let index = (screen_y - band_y as i32) as usize * SCREEN_WIDTH + screen_x as usize;
            if index < pixels.len() {
                pixels[index] = color;
            }
        }
        proof {
            let bit = glyph_bit(text@[character as int], gy as int, gx as int);
            assert(bit == lit);
            let next = if bit {
                visited.push(here)
            } else {
                visited
            };
            assert(next =~= glyph_points(rect.left as int, rect.top as int, text@, t + 1));
            assert forall|k: int| 0 <= k < before.len() implies #[trigger] pixels@[k] == if covers(
                next,
                band_y as int,
                k,
            ) {
                color
            } else {
                before[k]
            } by {
                if bit {
                    lemma_covers_push(visited, here, band_y as int, k);
                }
            }
            visited = next;
        }
        t = t + 1;
    }
    proof {
        assert(pixels@ =~= label_drawn(before, band_y as int, anchor, kind, text@, color));
    }
}

/// Most labels one graph view holds.
pub const MAX_LABELS: usize = 12;
/// Most numeric labels placed along one axis.
pub const MAX_NUMERIC_LABELS_PER_AXIS: usize = 3;
/// Least squared distance from a numeric label to the surface.
pub const MIN_NUMERIC_SURFACE_DISTANCE_SQUARED: i32 = 9;
/// Least squared distance from an axis label to the surface.
pub const MIN_AXIS_SURFACE_DISTANCE_SQUARED: i32 = 4;

/// A placed graph label. `value_bits` identifies the value of a numeric
/// label (zero for axis names) and `text` is what is drawn.
pub struct Label {
    pub anchor: ScreenPoint,
    pub kind: LabelKind,
    pub value_bits: u32,
    pub color: Color,
    pub text: Vec<u8>,
}

/// Abstract label.
pub struct LabelModel {
    pub anchor: ScreenPoint,
    pub kind: LabelKind,
    pub value_bits: u32,
    pub color: Color,
    pub text: Seq<u8>,
}

impl View for Label {
    type V = LabelModel;

    open spec fn view(&self) -> LabelModel {
        LabelModel {
            anchor: self.anchor,
            kind: self.kind,
            value_bits: self.value_bits,
            color: self.color,
            text: self.text@,
        }
    }
}

/// Two labels are the same label when anchor, kind, value and color agree.
pub open spec fn same_label(a: LabelModel, b: LabelModel) -> bool {
    a.anchor == b.anchor && a.kind == b.kind && a.value_bits == b.value_bits && a.color == b.color
}

/// Whether `candidate` (with box `rect`) may join `placed`: no placed label
/// is the same label, and none whose box exists comes within the label
/// separation of it.
pub open spec fn fits_among(placed: Seq<LabelModel>, candidate: LabelModel, rect: LabelRect) -> bool {
    forall|i: int|
        0 <= i < placed.len() ==> !same_label(#[trigger] placed[i], candidate) && match spec_label_rect(
            placed[i].anchor,
            placed[i].kind,
            placed[i].text,
        ) {
            Some(other) => !spec_overlap(rect, other, LABEL_SEPARATION as int),
            None => true,
        }
}

/// Whether `candidate` is placed: it has a box, storage has room, it is in
/// front of the near label depth (`near`), and it fits among the placed
/// labels.
pub open spec fn accepts(placed: Seq<LabelModel>, candidate: LabelModel, near: bool) -> bool {
    match spec_label_rect(candidate.anchor, candidate.kind, candidate.text) {
        None => false,
        Some(rect) => placed.len() < MAX_LABELS && near && fits_among(placed, candidate, rect),
    }
}

/// Labels of one graph view, at most `MAX_LABELS`, none overlapping.
pub struct LabelSet {
    labels: Vec<Label>,
}

impl View for LabelSet {
    type V = Seq<LabelModel>;

    closed spec fn view(&self) -> Seq<LabelModel> {
        self.labels@.map_values(|label: Label| label@)
    }
}

/// Label text that the box and overlap tests can handle.
pub open spec fn short_text(text: Seq<u8>) -> bool {
    text.len() < 0x1000
}

/// Every placed label has a box, no two placed labels are the same label,
/// and no two boxes come within the label separation of each other.
pub open spec fn labels_clear(placed: Seq<LabelModel>) -> bool {
    &&& forall|i: int|
        0 <= i < placed.len() ==> (spec_label_rect(
            #[trigger] placed[i].anchor,
            placed[i].kind,
            placed[i].text,
        ) is Some)
    &&& forall|i: int, j: int|
        0 <= i < j < placed.len() ==> {
            &&& !same_label(#[trigger] placed[i], #[trigger] placed[j])
            &&& match (
                spec_label_rect(placed[i].anchor, placed[i].kind, placed[i].text),
                spec_label_rect(placed[j].anchor, placed[j].kind, placed[j].text),
            ) {
                (Some(earlier), Some(later)) => !spec_overlap(later, earlier, LABEL_SEPARATION as int),
                _ => true,
            }
        }
}

/// A label that [`accepts`] lets in keeps the placed labels clear of one
/// another and within capacity.
pub proof fn accepted_labels_stay_clear(placed: Seq<LabelModel>, candidate: LabelModel, near: bool)
    requires
        labels_clear(placed),
        accepts(placed, candidate, near),
    ensures
        labels_clear(placed.push(candidate)),
        placed.push(candidate).len() <= MAX_LABELS,
{
    let pushed = placed.push(candidate);
    assert forall|i: int, j: int| 0 <= i < j < pushed.len() implies {
        &&& !same_label(#[trigger] pushed[i], #[trigger] pushed[j])
        &&& match (
            spec_label_rect(pushed[i].anchor, pushed[i].kind, pushed[i].text),
            spec_label_rect(pushed[j].anchor, pushed[j].kind, pushed[j].text),
        ) {
            (Some(earlier), Some(later)) => !spec_overlap(later, earlier, LABEL_SEPARATION as int),
            _ => true,
        }
    } by {
        if j < placed.len() {
            assert(pushed[i] == placed[i] && pushed[j] == placed[j]);
        } else {
            assert(pushed[i] == placed[i] && pushed[j] == candidate);
        }
    }
    assert forall|i: int| 0 <= i < pushed.len() implies (spec_label_rect(
        #[trigger] pushed[i].anchor,
        pushed[i].kind,
        pushed[i].text,
    ) is Some) by {
        if i < placed.len() {
            assert(pushed[i] == placed[i]);
        }
    }
}

impl LabelSet {
    pub closed spec fn wf(self) -> bool {
        &&& self.labels@.len() <= MAX_LABELS
        &&& forall|i: int| 0 <= i < self.labels@.len() ==> short_text(#[trigger] self.labels@[i].text@)
        &&& labels_clear(self@)
    }

    /// A well-formed label set holds at most [`MAX_LABELS`] labels, each
    /// with a box, none the same as another and none overlapping another.
    pub proof fn placed_labels_are_clear(&self)
        requires
            self.wf(),
        ensures
            labels_clear(self@),
            self@.len() <= MAX_LABELS,
    {
    }

    /// No labels.
    pub fn new() -> (set: LabelSet)
        ensures
            set@ == Seq::<LabelModel>::empty(),
            set.wf(),
    {
        let set = LabelSet { labels: Vec::new() };
        proof {
            assert(set@ =~= Seq::<LabelModel>::empty());
        }
        set
    }

    /// Number of placed labels.
    pub fn len(&self) -> (n: usize)
        ensures
            n == self@.len(),
    {
        self.labels.len()
    }

    /// Label `index`.
    pub fn label(&self, index: usize) -> (label: &Label)
        requires
            index < self@.len(),
        ensures
            label@ == self@[index as int],
            self.wf() ==> short_text(label.text@),
    {
        &self.labels[index]
    }

    /// Places `candidate` when [`accepts`] allows it; reports whether it did.
    pub fn add(&mut self, candidate: Label, near: bool) -> (added: bool)
        requires
            old(self).wf(),
            short_text(candidate.text@),
        ensures
            final(self).wf(),
            added == accepts(old(self)@, candidate@, near),
            final(self)@ == if added {
                old(self)@.push(candidate@)
            } else {
                old(self)@
            },
    {
        let rect = match label_rect(candidate.anchor, candidate.kind, candidate.text.as_slice()) {
            Some(rect) => rect,
            None => return false,
        };
        if self.labels.len() >= MAX_LABELS || !near {
            return false;
        }
        proof {
            lemma_text_end(candidate.text@, 0);
            assert(-40000 <= rect.left <= 40000 && -40000 <= rect.top <= 40000);
            assert(-40000 <= rect.right <= 40000 && -40000 <= rect.bottom <= 40000);
        }
        let mut index: usize = 0;
        while index < self.labels.len()
            invariant
                index <= self.labels@.len() <= MAX_LABELS,
                self.wf(),
                spec_label_rect(candidate.anchor, candidate.kind, candidate.text@) == Some(rect),
                -40000 <= rect.left <= 40000 && -40000 <= rect.top <= 40000,
                -40000 <= rect.right <= 40000 && -40000 <= rect.bottom <= 40000,
                fits_among(self@.subrange(0, index as int), candidate@, rect),
            decreases self.labels@.len() - index,
        {
            let existing = &self.labels[index];
            proof {
                assert(self@[index as int] == existing@);
            }
            if existing.anchor == candidate.anchor && existing.kind == candidate.kind
                && existing.value_bits == candidate.value_bits && existing.color == candidate.color {
                proof {
                    assert(!fits_among(self@, candidate@, rect)) by {
                        assert(same_label(self@[index as int], candidate@));
                    }
                }
                return false;
            }
            if let Some(other) = label_rect(existing.anchor, existing.kind, existing.text.as_slice()) {
                if label_rects_overlap(rect, other, LABEL_SEPARATION) {
                    proof {
                        assert(!fits_among(self@, candidate@, rect)) by {
                            assert(spec_overlap(rect, other, LABEL_SEPARATION as int));
                        }
                    }
                    return false;
                }
            }
            proof {
                assert(self@.subrange(0, index + 1) =~= self@.subrange(0, index as int).push(self@[index as int]));
            }
            index = index + 1;
        }
        proof {
            assert(self@.subrange(0, self@.len() as int) =~= self@);
        }
        let ghost before = self@;
        proof {
            accepted_labels_stay_clear(before, candidate@, near);
        }
        self.labels.push(candidate);
        proof {
            assert(self@ =~= before.push(candidate@));
        }
        true
    }
}

/// Squared distance between two screen points.
pub open spec fn point_distance_squared(a: ScreenPoint, b: ScreenPoint) -> int {
    (a.x - b.x) * (a.x - b.x) + (a.y - b.y) * (a.y - b.y)
}

/// Least squared distance from `point` to the already selected points, or,
/// with none selected, to the center of the graph viewport.
pub open spec fn spec_minimum_selected(point: ScreenPoint, selected: Seq<ScreenPoint>) -> int
    decreases selected.len(),
{
    if selected.len() == 0 {
        let dx = point.x - 160;
        let dy = point.y - 132;
        dx * dx + dy * dy
    } else if selected.len() == 1 {
        point_distance_squared(point, selected[0])
    } else {
        let rest = spec_minimum_selected(point, selected.drop_last());
        let last = point_distance_squared(point, selected.last());
        if last < rest {
            last
        } else {
            rest
        }
    }
}

/// Least squared distance from `point` to the selected points (bounded
/// projected coordinates).
pub fn minimum_selected_distance_squared(point: ScreenPoint, selected: &[ScreenPoint]) -> (distance: i32)
    requires
        -1024 <= point.x <= 1024,
        -1024 <= point.y <= 1024,
        forall|i: int|
            0 <= i < selected@.len() ==> -1024 <= (#[trigger] selected@[i]).x <= 1024 && -1024
                <= selected@[i].y <= 1024,
    ensures
        distance == spec_minimum_selected(point, selected@),
{
    if selected.len() == 0 {
        let dx = point.x as i32 - SCREEN_WIDTH as i32 / 2;
        let dy = point.y as i32 - (GRAPH_TOP as i32 + SCREEN_HEIGHT as i32) / 2;
        proof {
            assert(0 <= dx * dx <= 2000 * 2000) by (nonlinear_arith)
                requires
                    -2000 <= dx <= 2000,
            ;
            assert(0 <= dy * dy <= 2000 * 2000) by (nonlinear_arith)
                requires
                    -2000 <= dy <= 2000,
            ;
        }
        return dx * dx + dy * dy;
    }
    let mut minimum = i32::MAX;
    let mut index: usize = 0;
    while index < selected.len()
        invariant
            0 < selected@.len(),
            index <= selected@.len(),
            -1024 <= point.x <= 1024,
            -1024 <= point.y <= 1024,
            forall|i: int|
                0 <= i < selected@.len() ==> -1024 <= (#[trigger] selected@[i]).x <= 1024 && -1024
                    <= selected@[i].y <= 1024,
            index == 0 ==> minimum == i32::MAX,
            index > 0 ==> minimum == spec_minimum_selected(point, selected@.subrange(0, index as int)),
        decreases selected@.len() - index,
    {
        let other = selected[index];
        let dx = point.x as i32 - other.x as i32;
        let dy = point.y as i32 - other.y as i32;
        proof {
            assert(0 <= dx * dx <= 2048 * 2048) by (nonlinear_arith)
                requires
                    -2048 <= dx <= 2048,
            ;
            assert(0 <= dy * dy <= 2048 * 2048) by (nonlinear_arith)
                requires
                    -2048 <= dy <= 2048,
            ;
        }
        let distance = dx * dx + dy * dy;
        proof {
            let prefix = selected@.subrange(0, index + 1);
            assert(prefix.drop_last() =~= selected@.subrange(0, index as int));
            assert(prefix.last() == other);
            assert(distance == point_distance_squared(point, other));
            if index == 0 {
                assert(prefix.len() == 1 && prefix[0] == other);
            }
        }
        if distance < minimum {
            minimum = distance;
        }
        index = index + 1;
    }
    proof {
        assert(selected@.subrange(0, selected@.len() as int) =~= selected@);
    }
    minimum
}

} // verus!
