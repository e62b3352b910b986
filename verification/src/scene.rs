//! Screen-space geometry of one graph view and its composition into bands.
//!
//! The camera projects the world once per view; what comes out is integer
//! screen geometry: grid, axis and tick segments, the origin marker, and a
//! bounded set of non-overlapping labels. Numeric tick labels are chosen
//! greedily, at most three per axis, preferring candidates far from the
//! surface and from the labels already chosen. Every 320×8 band is then
//! composed in a fixed order: background, grid, axes, label backgrounds,
//! numeric glyphs, surface wireframe, ticks, origin, axis glyphs.
use vstd::prelude::*;
use crate::graph::{spec_palette, MAX_TICKS};
use crate::keys::Color;
use crate::raster::{
    accepts, draw_label, draw_line, draw_origin, expand_label_rect, fill_band_rect,
    label_box_is_on_screen, label_drawn, label_rect, line_drawn, minimum_selected_distance_squared,
    origin_drawn, point_distance_squared, projection_bounded, rect_filled, short_text,
    spec_expand, spec_glyph, spec_label_rect, spec_minimum_selected, spec_surface_distance,
    surface_distance_squared, Label, LabelKind, LabelModel, LabelSet, ProjectedLine, ScreenPoint,
    AXIS_X_GLYPH, AXIS_Y_GLYPH, AXIS_Z_GLYPH, LABEL_PADDING, MAX_NUMERIC_LABELS_PER_AXIS, MIN_AXIS_SURFACE_DISTANCE_SQUARED,
    MIN_NUMERIC_SURFACE_DISTANCE_SQUARED, SCREEN_HEIGHT,
};
use crate::surface::{MAX_COLUMNS, MAX_ROWS};

verus! {

/// Most grid, axis and tick segments one view holds.
pub const MAX_WORLD_LINES: usize = 48;

/// Composition layer of a segment.
#[derive(Clone, Copy, Debug, PartialEq, Eq, Structural)]
pub enum LineLayer {
    Grid,
    Axis,
    Tick,
}

/// A projected segment with its color and layer.
#[derive(Clone, Copy, Debug, PartialEq, Eq, Structural)]
pub struct ColoredLine {
    pub line: ProjectedLine,
    pub color: Color,
    pub layer: LineLayer,
}

/// Both ends of a segment lie within the bounded projection margin.
pub open spec fn segment_bounded(line: ProjectedLine) -> bool {
    projection_bounded(line.start) && projection_bounded(line.end)
}

/// Abstract view geometry.
pub struct GeometryModel {
    pub lines: Seq<ColoredLine>,
    pub labels: Seq<LabelModel>,
    pub origin: Option<ScreenPoint>,
}

/// Screen geometry of one graph view.
pub struct WorldGeometry {
    lines: Vec<ColoredLine>,
    labels: LabelSet,
    origin: Option<ScreenPoint>,
}

impl View for WorldGeometry {
    type V = GeometryModel;

    closed spec fn view(&self) -> GeometryModel {
        GeometryModel { lines: self.lines@, labels: self.labels@, origin: self.origin }
    }
}

/// Whether the origin marker, if any, is a usable bounded point.
pub open spec fn origin_bounded(origin: Option<ScreenPoint>) -> bool {
    origin matches Some(point) ==> point.x != i16::MIN && projection_bounded(point)
}

impl WorldGeometry {
    pub closed spec fn wf(self) -> bool {
        &&& self.lines@.len() <= MAX_WORLD_LINES
        &&& forall|i: int| 0 <= i < self.lines@.len() ==> segment_bounded(#[trigger] self.lines@[i].line)
        &&& self.labels.wf()
        &&& origin_bounded(self.origin)
    }

    /// No segments, labels or origin.
    pub fn new() -> (geometry: WorldGeometry)
        ensures
            geometry.wf(),
            geometry@.lines == Seq::<ColoredLine>::empty(),
            geometry@.labels == Seq::<LabelModel>::empty(),
            geometry@.origin is None,
    {
        WorldGeometry { lines: Vec::new(), labels: LabelSet::new(), origin: None }
    }

    /// The placed labels.
    pub fn labels(&self) -> (labels: &LabelSet)
        requires
            self.wf(),
        ensures
            labels@ == self@.labels,
            labels.wf(),
    {
        &self.labels
    }

    /// Number of stored segments.
    pub fn line_count(&self) -> (n: usize)
        ensures
            n == self@.lines.len(),
    {
        self.lines.len()
    }

    /// Segment `index`.
    pub fn line(&self, index: usize) -> (line: ColoredLine)
        requires
            index < self@.lines.len(),
        ensures
            line == self@.lines[index as int],
            self.wf() ==> segment_bounded(line.line),
    {
        self.lines[index]
    }

    /// The origin marker.
    pub fn origin(&self) -> (origin: Option<ScreenPoint>)
        ensures
            origin == self@.origin,
            self.wf() ==> origin_bounded(origin),
    {
        self.origin
    }

    /// Sets the origin marker.
    pub fn set_origin(&mut self, origin: Option<ScreenPoint>)
        requires
            old(self).wf(),
            origin_bounded(origin),
        ensures
            final(self).wf(),
            final(self)@ == (GeometryModel { origin, ..old(self)@ }),
    {
        self.origin = origin;
    }

    /// Stores a projected segment; a segment that could not be projected,
    /// or one beyond the fixed capacity, is dropped.
    pub fn add_line(&mut self, line: Option<ProjectedLine>, color: Color, layer: LineLayer)
        requires
            old(self).wf(),
            line matches Some(segment) ==> segment_bounded(segment),
        ensures
            final(self).wf(),
            final(self)@.labels == old(self)@.labels,
            final(self)@.origin == old(self)@.origin,
            final(self)@.lines == match line {
                Some(segment) if old(self)@.lines.len() < MAX_WORLD_LINES => old(self)@.lines.push(
                    ColoredLine { line: segment, color, layer },
                ),
                _ => old(self)@.lines,
            },
    {
        if self.lines.len() >= MAX_WORLD_LINES {
            return;
        }
        if let Some(segment) = line {
            self.lines.push(ColoredLine { line: segment, color, layer });
        }
    }

    /// Places a label when [`accepts`] allows it; reports whether it did.
    pub fn add_label(&mut self, candidate: Label, near: bool) -> (added: bool)
        requires
            old(self).wf(),
            short_text(candidate.text@),
        ensures
            final(self).wf(),
            final(self)@.lines == old(self)@.lines,
            final(self)@.origin == old(self)@.origin,
            added == accepts(old(self)@.labels, candidate@, near),
            final(self)@.labels == if added {
                old(self)@.labels.push(candidate@)
            } else {
                old(self)@.labels
            },
    {
        self.labels.add(candidate, near)
    }
}

/// A numeric tick label that may be placed.
pub struct NumericCandidate {
    pub anchor: ScreenPoint,
    pub value_bits: u32,
    pub text: Vec<u8>,
    pub surface_distance_squared: i32,
}

/// Abstract numeric candidate.
pub struct CandidateModel {
    pub anchor: ScreenPoint,
    pub value_bits: u32,
    pub text: Seq<u8>,
    pub surface_distance_squared: int,
}

impl View for NumericCandidate {
    type V = CandidateModel;

    open spec fn view(&self) -> CandidateModel {
        CandidateModel {
            anchor: self.anchor,
            value_bits: self.value_bits,
            text: self.text@,
            surface_distance_squared: self.surface_distance_squared as int,
        }
    }
}

/// Abstract candidate slot: taken slots are empty.
pub open spec fn slot_view(slot: Option<NumericCandidate>) -> Option<CandidateModel> {
    match slot {
        Some(candidate) => Some(candidate@),
        None => None,
    }
}

/// A candidate whose label has a box and whose text is short.
pub open spec fn candidate_ok(candidate: CandidateModel) -> bool {
    &&& spec_label_rect(candidate.anchor, LabelKind::Number, candidate.text) is Some
    &&& short_text(candidate.text)
    &&& 0 <= candidate.surface_distance_squared
}

/// Numeric label candidates of one axis, in tick order.
pub struct NumericCandidates {
    entries: Vec<Option<NumericCandidate>>,
}

/// Abstract candidate slots.
pub open spec fn slots_view(entries: Seq<Option<NumericCandidate>>) -> Seq<Option<CandidateModel>> {
    entries.map_values(|slot: Option<NumericCandidate>| slot_view(slot))
}

impl View for NumericCandidates {
    type V = Seq<Option<CandidateModel>>;

    closed spec fn view(&self) -> Seq<Option<CandidateModel>> {
        slots_view(self.entries@)
    }
}

impl NumericCandidates {
    pub closed spec fn wf(self) -> bool {
        &&& self.entries@.len() <= MAX_TICKS
        &&& forall|i: int|
            0 <= i < self.entries@.len() ==> (#[trigger] slot_view(self.entries@[i]) matches Some(
                candidate,
            ) ==> candidate_ok(candidate))
    }

    /// No candidates.
    pub fn new() -> (candidates: NumericCandidates)
        ensures
            candidates.wf(),
            candidates@ == Seq::<Option<CandidateModel>>::empty(),
    {
        let candidates = NumericCandidates { entries: Vec::new() };
        proof {
            assert(candidates@ =~= Seq::<Option<CandidateModel>>::empty());
        }
        candidates
    }

    /// Appends a candidate while there is room.
    fn push(&mut self, candidate: NumericCandidate)
        requires
            old(self).wf(),
            candidate_ok(candidate@),
        ensures
            final(self).wf(),
            final(self)@ == if old(self)@.len() < MAX_TICKS {
                old(self)@.push(Some(candidate@))
            } else {
                old(self)@
            },
    {
        if self.entries.len() < MAX_TICKS {
            let ghost view = candidate@;
            self.entries.push(Some(candidate));
            proof {
                assert(self@ =~= old(self)@.push(Some(view)));
            }
        }
    }
}

/// Candidates after considering a numeric label at `projected` (with its
/// depth test `near`): kept when it projects, has a box, is near enough,
/// stays clear of the surface, and there is room.
pub open spec fn considered(
    candidates: Seq<Option<CandidateModel>>,
    projected: Option<ScreenPoint>,
    near: bool,
    value_bits: u32,
    text: Seq<u8>,
    surface: Seq<ScreenPoint>,
) -> Seq<Option<CandidateModel>> {
    match projected {
        None => candidates,
        Some(anchor) => match spec_label_rect(anchor, LabelKind::Number, text) {
            None => candidates,
            Some(rect) => {
                let distance = spec_surface_distance(rect, surface);
                if near && distance >= MIN_NUMERIC_SURFACE_DISTANCE_SQUARED && candidates.len()
                    < MAX_TICKS {
                    candidates.push(
                        Some(
                            CandidateModel {
                                anchor,
                                value_bits,
                                text,
                                surface_distance_squared: distance,
                            },
                        ),
                    )
                } else {
                    candidates
                }
            },
        },
    }
}

/// Every projected surface point lies within the bounded projection margin.
pub open spec fn surface_bounded(surface: Seq<ScreenPoint>) -> bool {
    forall|k: int| 0 <= k < surface.len() ==> projection_bounded(#[trigger] surface[k])
}

/// Considers one numeric tick label for an axis.
pub fn consider_numeric_candidate(
    candidates: &mut NumericCandidates,
    projected: Option<ScreenPoint>,
    near: bool,
    value_bits: u32,
    text: Vec<u8>,
    projected_surface: &[ScreenPoint],
)
    requires
        old(candidates).wf(),
        short_text(text@),
        surface_bounded(projected_surface@),
    ensures
        final(candidates).wf(),
        final(candidates)@ == considered(
            old(candidates)@,
            projected,
            near,
            value_bits,
            text@,
            projected_surface@,
        ),
{
    let anchor = match projected {
        Some(anchor) => anchor,
        None => return,
    };
    let rect = match label_rect(anchor, LabelKind::Number, text.as_slice()) {
        Some(rect) => rect,
        None => return,
    };
    proof {
        label_box_is_on_screen(anchor, LabelKind::Number, text@);
    }
    let distance = surface_distance_squared(rect, projected_surface);
    if near && distance >= MIN_NUMERIC_SURFACE_DISTANCE_SQUARED {
        candidates.push(
            NumericCandidate { anchor, value_bits, text, surface_distance_squared: distance },
        );
    }
}

/// Text of an axis name label.
pub open spec fn axis_text(kind: LabelKind) -> Seq<u8> {
    match kind {
        LabelKind::AxisX => seq![88u8, 0u8],
        LabelKind::AxisY => seq![89u8, 0u8],
        _ => seq![90u8, 0u8],
    }
}

fn axis_text_bytes(kind: LabelKind) -> (text: Vec<u8>)
    ensures
        text@ == axis_text(kind),
{
    let text = match kind {
        LabelKind::AxisX => vec![88u8, 0u8],
        LabelKind::AxisY => vec![89u8, 0u8],
        _ => vec![90u8, 0u8],
    };
    proof {
        assert(text@ =~= axis_text(kind));
    }
    text
}

/// The axis name label at `projected`, when it has a box that stays clear
/// of the surface (placement is then up to [`accepts`]).
pub open spec fn axis_label_candidate(
    projected: Option<ScreenPoint>,
    kind: LabelKind,
    color: Color,
    surface: Seq<ScreenPoint>,
) -> Option<LabelModel> {
    match projected {
        None => None,
        Some(anchor) => match spec_label_rect(anchor, kind, axis_text(kind)) {
            None => None,
            Some(rect) => if spec_surface_distance(rect, surface)
                >= MIN_AXIS_SURFACE_DISTANCE_SQUARED {
                Some(LabelModel { anchor, kind, value_bits: 0, color, text: axis_text(kind) })
            } else {
                None
            },
        },
    }
}

/// The name label of each axis spells that axis and is drawn with that
/// axis's glyph, wherever it is placed: the X axis is labelled `X`, the Y
/// axis `Y` and the Z axis `Z`, each followed by the terminator.
pub proof fn axis_label_spells_its_axis(
    projected: Option<ScreenPoint>,
    kind: LabelKind,
    color: Color,
    surface: Seq<ScreenPoint>,
)
    requires
        kind != LabelKind::Number,
    ensures
        kind == LabelKind::AxisX ==> axis_text(kind) == seq![88u8, 0u8] && spec_glyph(
            axis_text(kind)[0],
        ) == Some(AXIS_X_GLYPH),
        kind == LabelKind::AxisY ==> axis_text(kind) == seq![89u8, 0u8] && spec_glyph(
            axis_text(kind)[0],
        ) == Some(AXIS_Y_GLYPH),
        kind == LabelKind::AxisZ ==> axis_text(kind) == seq![90u8, 0u8] && spec_glyph(
            axis_text(kind)[0],
        ) == Some(AXIS_Z_GLYPH),
        axis_label_candidate(projected, kind, color, surface) matches Some(label) ==> label.kind
            == kind && label.text == axis_text(kind),
{
}

/// Adds the name label of an axis (`kind` is `AxisX`, `AxisY` or `AxisZ`).
pub fn add_axis_label(
    geometry: &mut WorldGeometry,
    projected: Option<ScreenPoint>,
    near: bool,
    kind: LabelKind,
    color: Color,
    projected_surface: &[ScreenPoint],
)
    requires
        old(geometry).wf(),
        kind != LabelKind::Number,
        surface_bounded(projected_surface@),
    ensures
        final(geometry).wf(),
        final(geometry)@.lines == old(geometry)@.lines,
        final(geometry)@.origin == old(geometry)@.origin,
        final(geometry)@.labels == match axis_label_candidate(
            projected,
            kind,
            color,
            projected_surface@,
        ) {
            Some(label) if accepts(old(geometry)@.labels, label, near) => old(
                geometry,
            )@.labels.push(label),
            _ => old(geometry)@.labels,
        },
{
    let anchor = match projected {
        Some(anchor) => anchor,
        None => return,
    };
    let text = axis_text_bytes(kind);
    let rect = match label_rect(anchor, kind, text.as_slice()) {
        Some(rect) => rect,
        None => return,
    };
    proof {
        label_box_is_on_screen(anchor, kind, text@);
    }
    if surface_distance_squared(rect, projected_surface) >= MIN_AXIS_SURFACE_DISTANCE_SQUARED {
        let _ = geometry.add_label(Label { anchor, kind, value_bits: 0, color, text }, near);
    }
}

/// Score of a candidate against the points already selected: its surface
/// clearance plus its distance to the selected labels (or, with none, to
/// the view center), each capped at 4096.
pub open spec fn candidate_score(candidate: CandidateModel, selected: Seq<ScreenPoint>) -> int {
    let clearance = if candidate.surface_distance_squared < 4096 {
        candidate.surface_distance_squared
    } else {
        4096
    };
    let separation = spec_minimum_selected(candidate.anchor, selected);
    let spread = if separation < 4096 {
        separation
    } else {
        4096
    };
    clearance + spread
}

/// Index of the first best-scoring candidate among the first `n` slots.
pub open spec fn best_candidate(candidates: Seq<Option<CandidateModel>>, selected: Seq<ScreenPoint>, n: int) -> Option<
    int,
>
    decreases n,
{
    if n <= 0 {
        None
    } else {
        let earlier = best_candidate(candidates, selected, n - 1);
        match candidates[n - 1] {
            None => earlier,
            Some(candidate) => match earlier {
                None => Some(n - 1),
                Some(best) => match candidates[best] {
                    Some(leader) => if candidate_score(candidate, selected) > candidate_score(
                        leader,
                        selected,
                    ) {
                        Some(n - 1)
                    } else {
                        earlier
                    },
                    None => Some(n - 1),
                },
            },
        }
    }
}

/// Number of candidates left among the first `n` slots.
pub open spec fn present(candidates: Seq<Option<CandidateModel>>, n: int) -> nat
    decreases n,
{
    if n <= 0 {
        0
    } else {
        present(candidates, n - 1) + if candidates[n - 1] is Some {
            1nat
        } else {
            0nat
        }
    }
}

/// The best candidate, when there is one, is a slot still holding a candidate.
pub proof fn lemma_best_is_present(candidates: Seq<Option<CandidateModel>>, selected: Seq<ScreenPoint>, n: int)
    requires
        n <= candidates.len(),
    ensures
        best_candidate(candidates, selected, n) matches Some(i) ==> 0 <= i < n && candidates[i] is Some,
    decreases n,
{
    if n > 0 {
        lemma_best_is_present(candidates, selected, n - 1);
    }
}

/// Taking a candidate out of its slot leaves one fewer.
pub proof fn lemma_take(candidates: Seq<Option<CandidateModel>>, i: int, n: int)
    requires
        0 <= i < n <= candidates.len(),
        candidates[i] is Some,
    ensures
        present(candidates.update(i, None), n) + 1 == present(candidates, n),
    decreases n,
{
    if n - 1 > i {
        lemma_take(candidates, i, n - 1);
    } else {
        lemma_same_prefix(candidates, candidates.update(i, None), i);
    }
}

proof fn lemma_same_prefix(a: Seq<Option<CandidateModel>>, b: Seq<Option<CandidateModel>>, n: int)
    requires
        0 <= n <= a.len(),
        n <= b.len(),
        forall|k: int| 0 <= k < n ==> a[k] == b[k],
    ensures
        present(a, n) == present(b, n),
    decreases n,
{
    if n > 0 {
        lemma_same_prefix(a, b, n - 1);
    }
}

proof fn lemma_minimum_selected_nonnegative(point: ScreenPoint, selected: Seq<ScreenPoint>)
    ensures
        spec_minimum_selected(point, selected) >= 0,
    decreases selected.len(),
{
    if selected.len() == 0 {
        let dx = point.x - 160;
        let dy = point.y - 132;
        assert(dx * dx + dy * dy >= 0) by (nonlinear_arith);
    } else if selected.len() == 1 {
        let a = point.x - selected[0].x;
        let b = point.y - selected[0].y;
        assert(a * a + b * b >= 0) by (nonlinear_arith);
        assert(point_distance_squared(point, selected[0]) == a * a + b * b);
    } else {
        lemma_minimum_selected_nonnegative(point, selected.drop_last());
        let a = point.x - selected.last().x;
        let b = point.y - selected.last().y;
        assert(a * a + b * b >= 0) by (nonlinear_arith);
        assert(point_distance_squared(point, selected.last()) == a * a + b * b);
    }
}

/// The label a numeric candidate becomes.
pub open spec fn numeric_label(candidate: CandidateModel, color: Color) -> LabelModel {
    LabelModel {
        anchor: candidate.anchor,
        kind: LabelKind::Number,
        value_bits: candidate.value_bits,
        color,
        text: candidate.text,
    }
}

/// Labels after greedy selection: while fewer than three labels of this
/// axis are placed, the best remaining candidate is taken out and offered
/// to the label set; the ones it accepts count as selected.
pub open spec fn numeric_selection(
    placed: Seq<LabelModel>,
    candidates: Seq<Option<CandidateModel>>,
    selected: Seq<ScreenPoint>,
    color: Color,
) -> Seq<LabelModel>
    decreases present(candidates, candidates.len() as int),
{
    if selected.len() >= MAX_NUMERIC_LABELS_PER_AXIS {
        placed
    } else {
        match best_candidate(candidates, selected, candidates.len() as int) {
            None => placed,
            Some(i) => {
                proof {
                    lemma_best_is_present(candidates, selected, candidates.len() as int);
                    lemma_take(candidates, i, candidates.len() as int);
                }
                match candidates[i] {
                    None => placed,
                    Some(candidate) => {
                        let label = numeric_label(candidate, color);
                        let rest = candidates.update(i, None);
                        if accepts(placed, label, true) {
                            numeric_selection(
                                placed.push(label),
                                rest,
                                selected.push(candidate.anchor),
                                color,
                            )
                        } else {
                            numeric_selection(placed, rest, selected, color)
                        }
                    },
                }
            },
        }
    }
}

/// Selection keeps the labels already placed, adds only numeric labels,
/// and adds no more than the axis has room for: three, less those already
/// selected.
pub proof fn selection_adds_at_most_three(
    placed: Seq<LabelModel>,
    candidates: Seq<Option<CandidateModel>>,
    selected: Seq<ScreenPoint>,
    color: Color,
)
    ensures
        ({
            let result = numeric_selection(placed, candidates, selected, color);
            &&& placed.len() <= result.len()
            &&& result.subrange(0, placed.len() as int) == placed
            &&& selected.len() <= MAX_NUMERIC_LABELS_PER_AXIS ==> result.len() <= placed.len() + (
            MAX_NUMERIC_LABELS_PER_AXIS - selected.len())
            &&& forall|k: int| placed.len() <= k < result.len() ==> (#[trigger] result[k]).kind
                == LabelKind::Number
        }),
    decreases present(candidates, candidates.len() as int),
{
    let result = numeric_selection(placed, candidates, selected, color);
    if selected.len() >= MAX_NUMERIC_LABELS_PER_AXIS {
        assert(result.subrange(0, placed.len() as int) =~= placed);
    } else {
        match best_candidate(candidates, selected, candidates.len() as int) {
            None => {
                assert(result.subrange(0, placed.len() as int) =~= placed);
            },
            Some(i) => {
                lemma_best_is_present(candidates, selected, candidates.len() as int);
                lemma_take(candidates, i, candidates.len() as int);
                let candidate = candidates[i]->Some_0;
                let label = numeric_label(candidate, color);
                let rest = candidates.update(i, None);
                if accepts(placed, label, true) {
                    selection_adds_at_most_three(
                        placed.push(label),
                        rest,
                        selected.push(candidate.anchor),
                        color,
                    );
                    assert(result.subrange(0, placed.len() as int) =~= result.subrange(
                        0,
                        placed.len() + 1int,
                    ).subrange(0, placed.len() as int));
                    assert(result.subrange(0, placed.len() + 1int)[placed.len() as int] == label);
                } else {
                    selection_adds_at_most_three(placed, rest, selected, color);
                }
            },
        }
    }
}

/// A point within the range the distance helpers accept.
pub open spec fn near_screen(point: ScreenPoint) -> bool {
    -1024 <= point.x <= 1024 && -1024 <= point.y <= 1024
}

/// Places the numeric labels of one axis chosen from `candidates`.
pub fn select_numeric_labels(geometry: &mut WorldGeometry, candidates: NumericCandidates, color: Color)
    requires
        old(geometry).wf(),
        candidates.wf(),
    ensures
        final(geometry).wf(),
        final(geometry)@.lines == old(geometry)@.lines,
        final(geometry)@.origin == old(geometry)@.origin,
        final(geometry)@.labels == numeric_selection(
            old(geometry)@.labels,
            candidates@,
            Seq::empty(),
            color,
        ),
{
    let ghost target = numeric_selection(old(geometry)@.labels, candidates@, Seq::empty(), color);
    let mut entries = candidates.entries;
    let mut selected: Vec<ScreenPoint> = Vec::new();
    while selected.len() < MAX_NUMERIC_LABELS_PER_AXIS
        invariant
            geometry.wf(),
            geometry@.lines == old(geometry)@.lines,
            geometry@.origin == old(geometry)@.origin,
            entries@.len() <= MAX_TICKS,
            forall|i: int|
                0 <= i < entries@.len() ==> (#[trigger] slot_view(entries@[i]) matches Some(
                    candidate,
                ) ==> candidate_ok(candidate)),
            selected@.len() <= MAX_NUMERIC_LABELS_PER_AXIS,
            forall|k: int| 0 <= k < selected@.len() ==> near_screen(#[trigger] selected@[k]),
            numeric_selection(geometry@.labels, slots_view(entries@), selected@, color) == target,
        ensures
            geometry.wf(),
            geometry@.lines == old(geometry)@.lines,
            geometry@.origin == old(geometry)@.origin,
            geometry@.labels == target,
        decreases present(slots_view(entries@), entries@.len() as int),
    {
        let ghost view = slots_view(entries@);
        let mut best_index: Option<usize> = None;
        let mut best_score: i32 = -1;
        let mut index: usize = 0;
        while index < entries.len()
            invariant
                index <= entries@.len() <= MAX_TICKS,
                view == slots_view(entries@),
                forall|i: int|
                    0 <= i < entries@.len() ==> (#[trigger] slot_view(entries@[i]) matches Some(
                        candidate,
                    ) ==> candidate_ok(candidate)),
                forall|k: int| 0 <= k < selected@.len() ==> near_screen(#[trigger] selected@[k]),
                best_candidate(view, selected@, index as int) == match best_index {
                    Some(b) => Some(b as int),
                    None => None::<int>,
                },
                match best_index {
                    Some(b) => b < index && (view[b as int] matches Some(leader) && best_score
                        == candidate_score(leader, selected@)),
                    None => best_score == -1,
                },
            decreases entries@.len() - index,
        {
            assert(view[index as int] == slot_view(entries@[index as int]));
            if let Some(candidate) = &entries[index] {
                proof {
                    assert(candidate_ok(candidate@));
                    label_box_is_on_screen(candidate.anchor, LabelKind::Number, candidate.text@);
                    lemma_minimum_selected_nonnegative(candidate.anchor, selected@);
                }
                let separation = minimum_selected_distance_squared(candidate.anchor, selected.as_slice());
                let clearance: i32 = if candidate.surface_distance_squared < 4096 {
                    candidate.surface_distance_squared
                } else {
                    4096
                };
                let spread: i32 = if separation < 4096 {
                    separation
                } else {
                    4096
                };
                let score = clearance + spread;
                assert(score == candidate_score(candidate@, selected@));
                if score > best_score {
                    best_score = score;
                    best_index = Some(index);
                }
            }
            index = index + 1;
        }
        let index = match best_index {
            Some(index) => index,
            None => break,
        };
        proof {
            lemma_take(view, index as int, view.len() as int);
        }
        let (label, anchor) = match &entries[index] {
            Some(candidate) => {
                let text = candidate.text.clone();
                proof {
                    assert(text@ =~= candidate.text@);
                    label_box_is_on_screen(candidate.anchor, LabelKind::Number, candidate.text@);
                }
                (
                    Label {
                        anchor: candidate.anchor,
                        kind: LabelKind::Number,
                        value_bits: candidate.value_bits,
                        color,
                        text,
                    },
                    candidate.anchor,
                )
            },
            None => break,
        };
        entries.set(index, None);
        proof {
            assert(slots_view(entries@) =~= view.update(index as int, None));
        }
        if geometry.add_label(label, true) {
            selected.push(anchor);
        }
    }
}

/// The band after drawing, in order, the segments of `lines` on `layer`.
pub open spec fn lines_drawn(before: Seq<Color>, band_y: int, lines: Seq<ColoredLine>, layer: LineLayer) -> Seq<
    Color,
>
    decreases lines.len(),
{
    if lines.len() == 0 {
        before
    } else {
        let earlier = lines_drawn(before, band_y, lines.drop_last(), layer);
        let last = lines.last();
        if last.layer == layer {
            line_drawn(earlier, band_y, last.line.start, last.line.end, last.color)
        } else {
            earlier
        }
    }
}

/// Draws the segments of one layer into the band.
pub fn draw_geometry_lines(pixels: &mut [Color], band_y: usize, geometry: &WorldGeometry, layer: LineLayer)
    requires
        band_y <= SCREEN_HEIGHT,
        geometry.wf(),
    ensures
        final(pixels)@ == lines_drawn(old(pixels)@, band_y as int, geometry@.lines, layer),
{
    let ghost before = pixels@;
    let mut index: usize = 0;
    while index < geometry.line_count()
        invariant
            band_y <= SCREEN_HEIGHT,
            geometry.wf(),
            index <= geometry@.lines.len(),
            pixels@ == lines_drawn(before, band_y as int, geometry@.lines.subrange(0, index as int), layer),
        decreases geometry@.lines.len() - index,
    {
        let colored = geometry.line(index);
        proof {
            assert(geometry@.lines.subrange(0, index + 1).drop_last() =~= geometry@.lines.subrange(
                0,
                index as int,
            ));
        }
        if colored.layer == layer {
            draw_line(pixels, band_y, colored.line.start, colored.line.end, colored.color);
        }
        index = index + 1;
    }
    proof {
        assert(geometry@.lines.subrange(0, index as int) =~= geometry@.lines);
    }
}

/// The band after clearing, in order, the padded boxes of the numeric labels.
pub open spec fn backgrounds_drawn(before: Seq<Color>, band_y: int, labels: Seq<LabelModel>, color: Color) -> Seq<
    Color,
>
    decreases labels.len(),
{
    if labels.len() == 0 {
        before
    } else {
        let earlier = backgrounds_drawn(before, band_y, labels.drop_last(), color);
        let label = labels.last();
        if label.kind == LabelKind::Number {
            match spec_label_rect(label.anchor, label.kind, label.text) {
                Some(rect) => rect_filled(earlier, band_y, spec_expand(rect, LABEL_PADDING as int), color),
                None => earlier,
            }
        } else {
            earlier
        }
    }
}

/// Clears the padded box of every numeric label with `color`.
pub fn draw_label_backgrounds(pixels: &mut [Color], band_y: usize, geometry: &WorldGeometry, color: Color)
    requires
        band_y <= SCREEN_HEIGHT,
        geometry.wf(),
    ensures
        final(pixels)@ == backgrounds_drawn(old(pixels)@, band_y as int, geometry@.labels, color),
{
    let ghost before = pixels@;
    let labels = geometry.labels();
    let mut index: usize = 0;
    while index < labels.len()
        invariant
            band_y <= SCREEN_HEIGHT,
            labels.wf(),
            labels@ == geometry@.labels,
            index <= labels@.len(),
            pixels@ == backgrounds_drawn(before, band_y as int, labels@.subrange(0, index as int), color),
        decreases labels@.len() - index,
    {
        let label = labels.label(index);
        proof {
            assert(labels@.subrange(0, index + 1).drop_last() =~= labels@.subrange(0, index as int));
        }
        if label.kind == LabelKind::Number {
            if let Some(rect) = label_rect(label.anchor, label.kind, label.text.as_slice()) {
                proof {
                    label_box_is_on_screen(label.anchor, label.kind, label.text@);
                }
                fill_band_rect(pixels, band_y, expand_label_rect(rect, LABEL_PADDING), color);
            }
        }
        index = index + 1;
    }
    proof {
        assert(labels@.subrange(0, index as int) =~= labels@);
    }
}

/// The band after drawing, in order, the text of the numeric labels
/// (`numeric`) or of the axis name labels.
pub open spec fn labels_drawn(before: Seq<Color>, band_y: int, labels: Seq<LabelModel>, numeric: bool) -> Seq<
    Color,
>
    decreases labels.len(),
{
    if labels.len() == 0 {
        before
    } else {
        let earlier = labels_drawn(before, band_y, labels.drop_last(), numeric);
        let label = labels.last();
        if (label.kind == LabelKind::Number) == numeric {
            label_drawn(earlier, band_y, label.anchor, label.kind, label.text, label.color)
        } else {
            earlier
        }
    }
}

/// Draws the text of the numeric labels (`numeric`) or of the axis names.
pub fn draw_labels(pixels: &mut [Color], band_y: usize, geometry: &WorldGeometry, numeric: bool)
    requires
        band_y <= SCREEN_HEIGHT,
        geometry.wf(),
    ensures
        final(pixels)@ == labels_drawn(old(pixels)@, band_y as int, geometry@.labels, numeric),
{
    let ghost before = pixels@;
    let labels = geometry.labels();
    let mut index: usize = 0;
    while index < labels.len()
        invariant
            band_y <= SCREEN_HEIGHT,
            labels.wf(),
            labels@ == geometry@.labels,
            index <= labels@.len(),
            pixels@ == labels_drawn(before, band_y as int, labels@.subrange(0, index as int), numeric),
        decreases labels@.len() - index,
    {
        let label = labels.label(index);
        proof {
            assert(labels@.subrange(0, index + 1).drop_last() =~= labels@.subrange(0, index as int));
        }
        if (label.kind == LabelKind::Number) == numeric {
            draw_label(pixels, band_y, label.anchor, label.kind, label.text.as_slice(), label.color);
        }
        index = index + 1;
    }
    proof {
        assert(labels@.subrange(0, index as int) =~= labels@);
    }
}

/// Wireframe segments of the first `k` samples of a row-major grid of
/// `columns` × `rows` projected samples: from each sample to its right
/// neighbor, then to the sample below.
pub open spec fn surface_segments(points: Seq<ScreenPoint>, columns: int, rows: int, k: int) -> Seq<
    (ScreenPoint, ScreenPoint),
>
    decreases k,
{
    if k <= 0 {
        Seq::empty()
    } else {
        let i = k - 1;
        let right = if i % columns + 1 < columns {
            seq![(points[i], points[i + 1])]
        } else {
            Seq::empty()
        };
        let down = if i / columns + 1 < rows {
            seq![(points[i], points[i + columns])]
        } else {
            Seq::empty()
        };
        surface_segments(points, columns, rows, k - 1) + right + down
    }
}

/// The band after drawing, in order, the given segments with `color`.
pub open spec fn segments_drawn(
    before: Seq<Color>,
    band_y: int,
    segments: Seq<(ScreenPoint, ScreenPoint)>,
    color: Color,
) -> Seq<Color>
    decreases segments.len(),
{
    if segments.len() == 0 {
        before
    } else {
        let last = segments.last();
        line_drawn(segments_drawn(before, band_y, segments.drop_last(), color), band_y, last.0, last.1, color)
    }
}

proof fn lemma_segments_push(
    before: Seq<Color>,
    band_y: int,
    segments: Seq<(ScreenPoint, ScreenPoint)>,
    segment: (ScreenPoint, ScreenPoint),
    color: Color,
)
    ensures
        segments_drawn(before, band_y, segments.push(segment), color) == line_drawn(
            segments_drawn(before, band_y, segments, color),
            band_y,
            segment.0,
            segment.1,
            color,
        ),
{
    assert(segments.push(segment).drop_last() =~= segments);
}

/// Draws the row and column wire mesh of the projected surface samples
/// (`projected` holds `rows` rows of `columns` samples).
pub fn draw_surface(
    pixels: &mut [Color],
    band_y: usize,
    projected: &[ScreenPoint],
    columns: usize,
    rows: usize,
    color: Color,
)
    requires
        band_y <= SCREEN_HEIGHT,
        0 < columns <= MAX_COLUMNS,
        rows <= MAX_ROWS,
        projected@.len() == columns * rows,
        surface_bounded(projected@),
    ensures
        final(pixels)@ == segments_drawn(
            old(pixels)@,
            band_y as int,
            surface_segments(projected@, columns as int, rows as int, columns * rows),
            color,
        ),
{
    let ghost before = pixels@;
    assert(columns * rows <= MAX_COLUMNS * MAX_ROWS) by (nonlinear_arith)
        requires
            columns <= MAX_COLUMNS,
            rows <= MAX_ROWS,
    ;
    let total = columns * rows;
    let mut k: usize = 0;
    while k < total
        invariant
            band_y <= SCREEN_HEIGHT,
            0 < columns <= MAX_COLUMNS,
            rows <= MAX_ROWS,
            total == columns * rows == projected@.len(),
            surface_bounded(projected@),
            k <= total,
            pixels@ == segments_drawn(
                before,
                band_y as int,
                surface_segments(projected@, columns as int, rows as int, k as int),
                color,
            ),
        decreases total - k,
    {
        let column = k % columns;
        let row = k / columns;
        proof {
            vstd::arithmetic::div_mod::lemma_fundamental_div_mod(k as int, columns as int);
            assert(row < rows) by (nonlinear_arith)
                requires
                    k == columns * row + column,
                    0 <= column,
                    k < columns * rows,
                    columns > 0,
                    row >= 0,
            ;
            assert(column + 1 < columns ==> k + 1 < total) by (nonlinear_arith)
                requires
                    k == columns * row + column,
                    row + 1 <= rows,
                    total == columns * rows,
            ;
            assert(row + 1 < rows ==> k + columns < total) by (nonlinear_arith)
                requires
                    k == columns * row + column,
                    column < columns,
                    total == columns * rows,
            ;
        }
        let ghost earlier = surface_segments(projected@, columns as int, rows as int, k as int);
        let ghost right = if column + 1 < columns {
            seq![(projected@[k as int], projected@[k + 1])]
        } else {
            Seq::empty()
        };
        let ghost down = if row + 1 < rows {
            seq![(projected@[k as int], projected@[k + columns])]
        } else {
            Seq::empty()
        };
        if column + 1 < columns {
            draw_line(pixels, band_y, projected[k], projected[k + 1], color);
            proof {
                lemma_segments_push(before, band_y as int, earlier, right[0], color);
                assert(earlier.push(right[0]) =~= earlier + right);
            }
        } else {
            assert(earlier + right =~= earlier);
        }
        let ghost middle = earlier + right;
        if row + 1 < rows {
            draw_line(pixels, band_y, projected[k], projected[k + columns], color);
            proof {
                lemma_segments_push(before, band_y as int, middle, down[0], color);
                assert(middle.push(down[0]) =~= middle + down);
            }
        } else {
            assert(middle + down =~= middle);
        }
        k = k + 1;
    }
}

/// One band of the graph view: cleared to the background, then grid, axes,
/// numeric label backgrounds and glyphs, surface wireframe, ticks, origin,
/// and axis name glyphs, in that order.
pub open spec fn band_rendered(
    length: nat,
    band_y: int,
    geometry: GeometryModel,
    surface: Seq<ScreenPoint>,
    columns: int,
    rows: int,
) -> Seq<Color> {
    let palette = spec_palette();
    let cleared = Seq::new(length, |k: int| palette.background);
    let grid = lines_drawn(cleared, band_y, geometry.lines, LineLayer::Grid);
    let axes = lines_drawn(grid, band_y, geometry.lines, LineLayer::Axis);
    let backgrounds = backgrounds_drawn(axes, band_y, geometry.labels, palette.background);
    let numbers = labels_drawn(backgrounds, band_y, geometry.labels, true);
    let wire = segments_drawn(
        numbers,
        band_y,
        surface_segments(surface, columns, rows, columns * rows),
        palette.surface,
    );
    let ticks = lines_drawn(wire, band_y, geometry.lines, LineLayer::Tick);
    let marked = origin_drawn(ticks, band_y, geometry.origin, palette.origin);
    labels_drawn(marked, band_y, geometry.labels, false)
}

/// Composes the band of rows `band_y .. band_y + 8` of the graph view.
pub fn render_band(
    pixels: &mut [Color],
    band_y: usize,
    geometry: &WorldGeometry,
    projected: &[ScreenPoint],
    columns: usize,
    rows: usize,
)
    requires
        band_y <= SCREEN_HEIGHT,
        geometry.wf(),
        0 < columns <= MAX_COLUMNS,
        rows <= MAX_ROWS,
        projected@.len() == columns * rows,
        surface_bounded(projected@),
    ensures
        final(pixels)@ == band_rendered(
            old(pixels)@.len(),
            band_y as int,
            geometry@,
            projected@,
            columns as int,
            rows as int,
        ),
{
    let palette = crate::graph::palette();
    let length = pixels.len();
    let mut k: usize = 0;
    while k < length
        invariant
            length == pixels@.len(),
            k <= length,
            forall|j: int| 0 <= j < k ==> #[trigger] pixels@[j] == palette.background,
        decreases length - k,
    {
        pixels[k] = palette.background;
        k = k + 1;
    }
    proof {
        assert(pixels@ =~= Seq::new(length as nat, |j: int| palette.background));
    }
    draw_geometry_lines(pixels, band_y, geometry, LineLayer::Grid);
    draw_geometry_lines(pixels, band_y, geometry, LineLayer::Axis);
    draw_label_backgrounds(pixels, band_y, geometry, palette.background);
    draw_labels(pixels, band_y, geometry, true);
    draw_surface(pixels, band_y, projected, columns, rows, palette.surface);
    draw_geometry_lines(pixels, band_y, geometry, LineLayer::Tick);
    draw_origin(pixels, band_y, geometry.origin(), palette.origin);
    draw_labels(pixels, band_y, geometry, false);
}


/// The band after drawing every segment of `lines` in order, whatever its
/// layer, each with its own color.
pub open spec fn all_lines_drawn(before: Seq<Color>, band_y: int, lines: Seq<ColoredLine>) -> Seq<
    Color,
>
    decreases lines.len(),
{
    if lines.len() == 0 {
        before
    } else {
        let last = lines.last();
        line_drawn(
            all_lines_drawn(before, band_y, lines.drop_last()),
            band_y,
            last.line.start,
            last.line.end,
            last.color,
        )
    }
}

/// Drawing one layer draws every segment of that layer and no other.
proof fn lemma_layer_drawn(before: Seq<Color>, band_y: int, lines: Seq<ColoredLine>, layer: LineLayer, drawn: LineLayer)
    requires
        forall|i: int| 0 <= i < lines.len() ==> (#[trigger] lines[i]).layer == layer,
    ensures
        drawn == layer ==> lines_drawn(before, band_y, lines, drawn) == all_lines_drawn(before, band_y, lines),
        drawn != layer ==> lines_drawn(before, band_y, lines, drawn) == before,
    decreases lines.len(),
{
    if lines.len() > 0 {
        let rest = lines.drop_last();
        assert forall|i: int| 0 <= i < rest.len() implies (#[trigger] rest[i]).layer == layer by {
            assert(rest[i] == lines[i]);
        }
        lemma_layer_drawn(before, band_y, rest, layer, drawn);
        assert(lines.last() == lines[lines.len() - 1]);
    }
}

/// Every stored segment is drawn in the band, on each of the three layers,
/// in composition order with the surface wireframe: in a view whose
/// segments all lie on one layer and that has no label and no origin
/// marker, grid and axis segments are drawn over the background and the
/// wireframe over them, while tick segments are drawn last, over the
/// wireframe; each segment in its own color. So a tick segment that
/// crosses the band colors its pixels unless a later segment covers them.
pub proof fn every_layer_is_drawn(
    length: nat,
    band_y: int,
    geometry: GeometryModel,
    surface: Seq<ScreenPoint>,
    columns: int,
    rows: int,
    layer: LineLayer,
)
    requires
        geometry.labels.len() == 0,
        geometry.origin is None,
        forall|i: int| 0 <= i < geometry.lines.len() ==> (#[trigger] geometry.lines[i]).layer == layer,
    ensures
        ({
            let cleared = Seq::new(length, |k: int| spec_palette().background);
            let segments = surface_segments(surface, columns, rows, columns * rows);
            let rendered = band_rendered(length, band_y, geometry, surface, columns, rows);
            &&& layer == LineLayer::Tick ==> rendered == all_lines_drawn(
                segments_drawn(cleared, band_y, segments, spec_palette().surface),
                band_y,
                geometry.lines,
            )
            &&& layer != LineLayer::Tick ==> rendered == segments_drawn(
                all_lines_drawn(cleared, band_y, geometry.lines),
                band_y,
                segments,
                spec_palette().surface,
            )
        }),
{
    let palette = spec_palette();
    let cleared = Seq::new(length, |k: int| palette.background);
    let lines = geometry.lines;
    let every = all_lines_drawn(cleared, band_y, lines);
    let segments = surface_segments(surface, columns, rows, columns * rows);
    lemma_layer_drawn(cleared, band_y, lines, layer, LineLayer::Grid);
    let grid = lines_drawn(cleared, band_y, lines, LineLayer::Grid);
    lemma_layer_drawn(grid, band_y, lines, layer, LineLayer::Axis);
    let axes = lines_drawn(grid, band_y, lines, LineLayer::Axis);
    assert(axes == if layer == LineLayer::Tick { cleared } else { every });
    let wire = segments_drawn(axes, band_y, segments, palette.surface);
    lemma_layer_drawn(wire, band_y, lines, layer, LineLayer::Tick);
}

} // verus!
