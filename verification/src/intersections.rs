//! Bounded camera-independent intersections between sampled height fields.
//!
//! Marching each of the two regular-grid triangles of a cell detects sign
//! changes in `f - g`. An endpoint stores only a cell, triangle, edge and a
//! 16-bit interpolation fraction packed into one `u32`; world coordinates are
//! reconstructed from the shared samples when projected.
//!
//! This module owns the integer part: packing, grid keys that identify an
//! endpoint independently of which triangle found it, per-triangle crossing
//! selection, duplicate suppression, evenly spaced selection when a pair has
//! more segments than its storage, and the per-pair validity and visibility
//! masks. Classifying each triangle edge from sampled heights is done by the
//! caller.
use vstd::prelude::*;
use crate::functions::MAX_FUNCTION_PAIRS;

verus! {

pub const MAX_INTERSECTION_SEGMENTS_PER_PAIR: usize = 256;
pub const MAX_TOTAL_INTERSECTION_SEGMENTS: usize = 1536;

/// Largest interpolation fraction: the far end of an edge.
pub const EDGE_END: u16 = 65535;

/// Cell (11 bits), triangle (1 bit), edge (2 bits) and fraction (16 bits).
#[derive(Clone, Copy, Debug, PartialEq, Eq, Structural)]
pub struct PackedEndpoint(pub u32);

/// Two endpoints of one piece of an intersection curve.
#[derive(Clone, Copy, Debug, PartialEq, Eq, Structural)]
pub struct PackedSegment {
    pub first: PackedEndpoint,
    pub second: PackedEndpoint,
}

/// The packed form of an endpoint.
pub open spec fn spec_pack(cell: usize, triangle: usize, edge: usize, t: u16) -> u32 {
    (t as u32) | (((cell % 2048) as u32) << 16u32) | (((triangle % 2) as u32) << 27u32) | (((edge
        % 4) as u32) << 28u32)
}

/// Cell, triangle, edge and fraction of a packed endpoint.
pub open spec fn spec_unpack(value: u32) -> (usize, usize, usize, u16) {
    (
        ((value >> 16u32) & 0x7ffu32) as usize,
        ((value >> 27u32) & 1u32) as usize,
        ((value >> 28u32) & 3u32) as usize,
        (value & 0xffffu32) as u16,
    )
}

/// Packs an endpoint; the cell keeps its low 11 bits, the triangle its low
/// bit, the edge its low two bits.
pub fn pack_endpoint(cell: usize, triangle: usize, edge: usize, t: u16) -> (endpoint:
    PackedEndpoint)
    ensures
        endpoint.0 == spec_pack(cell, triangle, edge, t),
{
    let c: u32 = (cell % 2048) as u32;
    let tr: u32 = (triangle % 2) as u32;
    let ed: u32 = (edge % 4) as u32;
    PackedEndpoint((t as u32) | (c << 16u32) | (tr << 27u32) | (ed << 28u32))
}

/// Splits a packed endpoint into cell, triangle, edge and fraction.
pub fn unpack_endpoint(endpoint: PackedEndpoint) -> (parts: (usize, usize, usize, u16))
    ensures
        parts == spec_unpack(endpoint.0),
        parts.0 < 2048 && parts.1 < 2 && parts.2 < 4,
{
    let v = endpoint.0;
    proof {
        assert((v >> 16u32) & 0x7ffu32 < 2048) by (bit_vector);
        assert((v >> 27u32) & 1u32 < 2) by (bit_vector);
        assert((v >> 28u32) & 3u32 < 4) by (bit_vector);
        assert(v & 0xffffu32 < 65536) by (bit_vector);
    }
    (
        ((v >> 16u32) & 0x7ffu32) as usize,
        ((v >> 27u32) & 1u32) as usize,
        ((v >> 28u32) & 3u32) as usize,
        (v & 0xffffu32) as u16,
    )
}

/// Unpacking a packed endpoint gives back the fraction and the low bits of
/// the cell, triangle and edge.
pub proof fn unpack_inverts_pack(cell: usize, triangle: usize, edge: usize, t: u16)
    ensures
        spec_unpack(spec_pack(cell, triangle, edge, t)) == (
            cell % 2048,
            triangle % 2,
            edge % 4,
            t,
        ),
{
    let c: u32 = (cell % 2048) as u32;
    let tr: u32 = (triangle % 2) as u32;
    let ed: u32 = (edge % 4) as u32;
    let tt: u32 = t as u32;
    let v = tt | (c << 16u32) | (tr << 27u32) | (ed << 28u32);
    assert((v >> 16u32) & 0x7ffu32 == c) by (bit_vector)
        requires
            v == tt | (c << 16u32) | (tr << 27u32) | (ed << 28u32),
            c < 2048,
            tr < 2,
            ed < 4,
            tt < 65536,
    ;
    assert((v >> 27u32) & 1u32 == tr) by (bit_vector)
        requires
            v == tt | (c << 16u32) | (tr << 27u32) | (ed << 28u32),
            c < 2048,
            tr < 2,
            ed < 4,
            tt < 65536,
    ;
    assert((v >> 28u32) & 3u32 == ed) by (bit_vector)
        requires
            v == tt | (c << 16u32) | (tr << 27u32) | (ed << 28u32),
            c < 2048,
            tr < 2,
            ed < 4,
            tt < 65536,
    ;
    assert(v & 0xffffu32 == tt) by (bit_vector)
        requires
            v == tt | (c << 16u32) | (tr << 27u32) | (ed << 28u32),
            c < 2048,
            tr < 2,
            ed < 4,
            tt < 65536,
    ;
}

/// Grid vertices `(row, column)` of triangle 0 (upper right) or 1 (lower
/// left) of the cell at `(row, column)`.
pub open spec fn spec_triangle_vertices(row: int, column: int, triangle: int) -> (
    (int, int),
    (int, int),
    (int, int),
) {
    if triangle == 0 {
        ((row, column), (row, column + 1), (row + 1, column + 1))
    } else {
        ((row, column), (row + 1, column + 1), (row + 1, column))
    }
}

/// Vertex indices at the ends of edge `edge` (edges past the third are the
/// third).
pub open spec fn spec_edge_ends(edge: int) -> (int, int) {
    if edge == 0 {
        (0, 1)
    } else if edge == 1 {
        (1, 2)
    } else {
        (2, 0)
    }
}

pub open spec fn vertex_of(vertices: ((int, int), (int, int), (int, int)), index: int) -> (int, int) {
    if index == 0 {
        vertices.0
    } else if index == 1 {
        vertices.1
    } else {
        vertices.2
    }
}

/// Grid vertices of a triangle.
pub fn triangle_vertices(row: usize, column: usize, triangle: usize) -> (vertices: (
    (usize, usize),
    (usize, usize),
    (usize, usize),
))
    requires
        row < usize::MAX,
        column < usize::MAX,
    ensures
        ((vertices.0.0 as int, vertices.0.1 as int), (vertices.1.0 as int, vertices.1.1 as int), (
            vertices.2.0 as int,
            vertices.2.1 as int,
        )) == spec_triangle_vertices(row as int, column as int, triangle as int),
{
    if triangle == 0 {
        ((row, column), (row, column + 1), (row + 1, column + 1))
    } else {
        ((row, column), (row + 1, column + 1), (row + 1, column))
    }
}

/// Vertex indices at the ends of an edge.
pub fn edge_ends(edge: usize) -> (ends: (usize, usize))
    ensures
        (ends.0 as int, ends.1 as int) == spec_edge_ends(edge as int),
{
    if edge == 0 {
        (0, 1)
    } else if edge == 1 {
        (1, 2)
    } else {
        (2, 0)
    }
}

/// Signed move of `t` units from coordinate `from` toward `to` (adjacent
/// grid coordinates differ by at most one).
pub open spec fn toward(from: int, to: int, t: int) -> int {
    if to > from {
        t
    } else if to < from {
        -t
    } else {
        0
    }
}

/// Position of an endpoint on the grid, in units of `1/65535` of a cell, as
/// `(x, y)`: the same point gets the same key whichever triangle found it.
pub open spec fn endpoint_key(value: u32, columns: usize) -> (int, int) {
    let (cell, triangle, edge, t) = spec_unpack(value);
    let row = (cell as int) / ((columns - 1) as int);
    let column = (cell as int) % ((columns - 1) as int);
    let vertices = spec_triangle_vertices(row, column, triangle as int);
    let ends = spec_edge_ends(edge as int);
    let a = vertex_of(vertices, ends.0);
    let b = vertex_of(vertices, ends.1);
    (a.1 * 65535 + toward(a.1, b.1, t as int), a.0 * 65535 + toward(a.0, b.0, t as int))
}

proof fn lemma_cell_position(cell: int, columns: int)
    requires
        0 <= cell < 2048,
        columns >= 2,
    ensures
        0 <= cell / (columns - 1) <= cell,
        0 <= cell % (columns - 1) <= cell,
{
    assert(0 <= cell / (columns - 1) <= cell) by (nonlinear_arith)
        requires
            0 <= cell,
            columns >= 2,
    ;
    assert(0 <= cell % (columns - 1) <= cell) by (nonlinear_arith)
        requires
            0 <= cell,
            columns >= 2,
    ;
}

proof fn lemma_endpoint_key_range(value: u32, columns: usize)
    requires
        columns >= 2,
    ensures
        0 <= endpoint_key(value, columns).0 <= 2049 * 65535,
        0 <= endpoint_key(value, columns).1 <= 2049 * 65535,
{
    assert((value >> 16u32) & 0x7ffu32 < 2048) by (bit_vector);
    assert(value & 0xffffu32 < 65536) by (bit_vector);
    let (cell, triangle, edge, t) = spec_unpack(value);
    lemma_cell_position(cell as int, columns as int);
}

/// Grid key of an endpoint (`columns >= 2`).
pub fn endpoint_grid_key(endpoint: PackedEndpoint, columns: usize) -> (key: (u32, u32))
    requires
        columns >= 2,
    ensures
        (key.0 as int, key.1 as int) == endpoint_key(endpoint.0, columns),
{
    let (cell, triangle, edge, t) = unpack_endpoint(endpoint);
    proof {
        lemma_endpoint_key_range(endpoint.0, columns);
        lemma_cell_position(cell as int, columns as int);
    }
    let row = cell / (columns - 1);
    let column = cell % (columns - 1);
    let vertices = triangle_vertices(row, column, triangle);
    let ends = edge_ends(edge);
    let a = if ends.0 == 0 {
        vertices.0
    } else if ends.0 == 1 {
        vertices.1
    } else {
        vertices.2
    };
    let b = if ends.1 == 0 {
        vertices.0
    } else if ends.1 == 1 {
        vertices.1
    } else {
        vertices.2
    };
    let ax = a.1 as u64 * 65535;
    let ay = a.0 as u64 * 65535;
    let x: u64 = if b.1 > a.1 {
        ax + t as u64
    } else if b.1 < a.1 {
        ax - t as u64
    } else {
        ax
    };
    let y: u64 = if b.0 > a.0 {
        ay + t as u64
    } else if b.0 < a.0 {
        ay - t as u64
    } else {
        ay
    };
    (x as u32, y as u32)
}

/// The two endpoint keys of a segment, smaller first (by `x`, then `y`).
pub open spec fn segment_key(segment: PackedSegment, columns: usize) -> ((int, int), (int, int)) {
    let first = endpoint_key(segment.first.0, columns);
    let second = endpoint_key(segment.second.0, columns);
    if first.0 < second.0 || (first.0 == second.0 && first.1 <= second.1) {
        (first, second)
    } else {
        (second, first)
    }
}

/// Grid key of a segment, independent of endpoint order (`columns >= 2`).
pub fn segment_grid_key(segment: PackedSegment, columns: usize) -> (key: ((u32, u32), (u32, u32)))
    requires
        columns >= 2,
    ensures
        ((key.0.0 as int, key.0.1 as int), (key.1.0 as int, key.1.1 as int)) == segment_key(
            segment,
            columns,
        ),
{
    let first = endpoint_grid_key(segment.first, columns);
    let second = endpoint_grid_key(segment.second, columns);
    if first.0 < second.0 || (first.0 == second.0 && first.1 <= second.1) {
        (first, second)
    } else {
        (second, first)
    }
}

/// How `f - g` behaves along one triangle edge, as classified from the
/// sampled differences at its ends.
#[derive(Clone, Copy, Debug, PartialEq, Eq, Structural)]
pub enum EdgeCrossing {
    /// Zero at both ends: the whole edge lies on the intersection.
    Flat,
    /// One crossing at this fraction of the edge.
    At(u16),
    /// No crossing.
    Apart,
}

/// Distinct crossing endpoints (by grid key) of the first `n` edges.
pub open spec fn crossing_endpoints(
    cell: usize,
    triangle: usize,
    edges: Seq<EdgeCrossing>,
    columns: usize,
    n: int,
) -> Seq<PackedEndpoint>
    decreases n,
{
    if n <= 0 {
        Seq::empty()
    } else {
        let previous = crossing_endpoints(cell, triangle, edges, columns, n - 1);
        match edges[n - 1] {
            EdgeCrossing::At(t) => {
                let endpoint = PackedEndpoint(spec_pack(cell, triangle, (n - 1) as usize, t));
                if exists|j: int|
                    0 <= j < previous.len() && #[trigger] endpoint_key(previous[j].0, columns)
                        == endpoint_key(endpoint.0, columns) {
                    previous
                } else {
                    previous.push(endpoint)
                }
            },
            _ => previous,
        }
    }
}

/// First flat edge among the first `n`, if any.
pub open spec fn first_flat(edges: Seq<EdgeCrossing>, n: int) -> Option<int>
    decreases n,
{
    if n <= 0 {
        None
    } else {
        match first_flat(edges, n - 1) {
            Some(k) => Some(k),
            None => if edges[n - 1] == EdgeCrossing::Flat {
                Some(n - 1)
            } else {
                None
            },
        }
    }
}

/// The segment one triangle contributes: a whole flat edge (the first one),
/// else the first two distinct crossings, a single crossing as a point
/// segment, or nothing.
pub open spec fn spec_triangle_segment(
    cell: usize,
    triangle: usize,
    edges: Seq<EdgeCrossing>,
    columns: usize,
) -> Option<PackedSegment> {
    match first_flat(edges, 3) {
        Some(k) => Some(
            PackedSegment {
                first: PackedEndpoint(spec_pack(cell, triangle, k as usize, 0)),
                second: PackedEndpoint(spec_pack(cell, triangle, k as usize, EDGE_END)),
            },
        ),
        None => {
            let points = crossing_endpoints(cell, triangle, edges, columns, 3);
            if points.len() >= 2 {
                Some(PackedSegment { first: points[0], second: points[1] })
            } else if points.len() == 1 {
                Some(PackedSegment { first: points[0], second: points[0] })
            } else {
                None
            }
        },
    }
}

/// The segment of the intersection inside triangle `triangle` of cell
/// `cell`, given how `f - g` crosses each of its three edges.
pub fn triangle_segment(cell: usize, triangle: usize, edges: [EdgeCrossing; 3], columns: usize) -> (segment: Option<PackedSegment>)
    requires
        columns >= 2,
    ensures
        segment == spec_triangle_segment(cell, triangle, edges@, columns),
{
    let mut points: Vec<PackedEndpoint> = Vec::new();
    let mut edge: usize = 0;
    while edge < 3
        invariant
            edge <= 3,
            edges@.len() == 3,
            columns >= 2,
            first_flat(edges@, edge as int) is None,
            points@ == crossing_endpoints(cell, triangle, edges@, columns, edge as int),
            points@.len() <= edge,
        decreases 3 - edge,
    {
        match edges[edge] {
            EdgeCrossing::Flat => {
                proof {
                    assert(first_flat(edges@, edge + 1) == Some(edge as int));
                    lemma_first_flat_stays(edges@, edge + 1, 3);
                }
                return Some(
                    PackedSegment {
                        first: pack_endpoint(cell, triangle, edge, 0),
                        second: pack_endpoint(cell, triangle, edge, EDGE_END),
                    },
                );
            },
            EdgeCrossing::At(t) => {
                let endpoint = pack_endpoint(cell, triangle, edge, t);
                let key = endpoint_grid_key(endpoint, columns);
                let mut duplicate = false;
                let mut prior: usize = 0;
                while prior < points.len()
                    invariant
                        prior <= points@.len(),
                        columns >= 2,
                        (key.0 as int, key.1 as int) == endpoint_key(endpoint.0, columns),
                        duplicate == exists|j: int|
                            0 <= j < prior && #[trigger] endpoint_key(points@[j].0, columns)
                                == endpoint_key(endpoint.0, columns),
                    decreases points@.len() - prior,
                {
                    let other = endpoint_grid_key(points[prior], columns);
                    if other.0 == key.0 && other.1 == key.1 {
                        duplicate = true;
                    }
                    proof {
                        if duplicate && !(exists|j: int|
                            0 <= j < prior && #[trigger] endpoint_key(points@[j].0, columns)
                                == endpoint_key(endpoint.0, columns)) {
                            assert(endpoint_key(points@[prior as int].0, columns) == endpoint_key(
                                endpoint.0,
                                columns,
                            ));
                        }
                    }
                    prior = prior + 1;
                }
                if !duplicate {
                    points.push(endpoint);
                }
            },
            EdgeCrossing::Apart => {},
        }
        edge = edge + 1;
    }
    if points.len() >= 2 {
        Some(PackedSegment { first: points[0], second: points[1] })
    } else if points.len() == 1 {
        Some(PackedSegment { first: points[0], second: points[0] })
    } else {
        None
    }
}

proof fn lemma_first_flat_stays(edges: Seq<EdgeCrossing>, n: int, m: int)
    requires
        n <= m,
        first_flat(edges, n) is Some,
    ensures
        first_flat(edges, m) == first_flat(edges, n),
    decreases m - n,
{
    if n < m {
        lemma_first_flat_stays(edges, n, m - 1);
    }
}

/// `candidate` joins `segments` unless storage is full or a stored segment
/// has the same grid key.
pub open spec fn with_unique(segments: Seq<PackedSegment>, candidate: PackedSegment, columns: usize) -> Seq<PackedSegment> {
    if segments.len() >= MAX_INTERSECTION_SEGMENTS_PER_PAIR || exists|k: int|
        0 <= k < segments.len() && #[trigger] segment_key(segments[k], columns) == segment_key(
            candidate,
            columns,
        ) {
        segments
    } else {
        segments.push(candidate)
    }
}

/// Whether ordinal `ordinal` is one of the evenly spaced ordinals
/// `s * (total - 1) / 255` for `s` in `0..256`.
pub open spec fn evenly_spaced(ordinal: int, total: int) -> bool {
    exists|s: int|
        0 <= s < MAX_INTERSECTION_SEGMENTS_PER_PAIR && #[trigger] (s * (total - 1)) / 255
            == ordinal
}

/// Whether candidate `ordinal` of `total` is considered for storage: all of
/// them when they fit, the evenly spaced ones otherwise.
pub open spec fn considered(ordinal: int, total: int) -> bool {
    if total > MAX_INTERSECTION_SEGMENTS_PER_PAIR {
        evenly_spaced(ordinal, total)
    } else {
        true
    }
}

/// Segments stored after offering the first `n` of `candidates`.
pub open spec fn gathered(candidates: Seq<PackedSegment>, n: int, columns: usize) -> Seq<
    PackedSegment,
>
    decreases n,
{
    if n <= 0 {
        Seq::empty()
    } else {
        let previous = gathered(candidates, n - 1, columns);
        if considered(n - 1, candidates.len() as int) {
            with_unique(previous, candidates[n - 1], columns)
        } else {
            previous
        }
    }
}

/// Stored segments of one function pair, how many were found, and whether
/// some had to be left out.
pub struct PairIntersections {
    segments: Vec<PackedSegment>,
    total: u16,
    truncated: bool,
}

/// Abstract contents of a pair's storage.
pub struct PairModel {
    pub segments: Seq<PackedSegment>,
    pub total: u16,
    pub truncated: bool,
}

impl View for PairIntersections {
    type V = PairModel;

    closed spec fn view(&self) -> PairModel {
        PairModel { segments: self.segments@, total: self.total, truncated: self.truncated }
    }
}

impl PairIntersections {
    /// No segments.
    pub fn empty() -> (pair: PairIntersections)
        ensures
            pair@.segments == Seq::<PackedSegment>::empty(),
            pair@.total == 0,
            !pair@.truncated,
    {
        PairIntersections { segments: Vec::new(), total: 0, truncated: false }
    }

    /// The stored segments.
    pub fn segments(&self) -> (segments: &[PackedSegment])
        ensures
            segments@ == self@.segments,
    {
        self.segments.as_slice()
    }

    /// Number of segments found, saturating at `u16::MAX`.
    pub fn total(&self) -> (total: u16)
        ensures
            total == self@.total,
    {
        self.total
    }

    /// Whether more segments were found than could be stored.
    pub fn truncated(&self) -> (truncated: bool)
        ensures
            truncated == self@.truncated,
    {
        self.truncated
    }

    /// Stores `candidate` unless storage is full or a stored segment has
    /// the same grid key.
    pub fn push_unique(&mut self, candidate: PackedSegment, columns: usize)
        requires
            columns >= 2,
        ensures
            final(self)@.segments == with_unique(old(self)@.segments, candidate, columns),
            final(self)@.total == old(self)@.total,
            final(self)@.truncated == old(self)@.truncated,
    {
        if self.segments.len() >= MAX_INTERSECTION_SEGMENTS_PER_PAIR {
            return;
        }
        let key = segment_grid_key(candidate, columns);
        let mut index: usize = 0;
        while index < self.segments.len()
            invariant
                index <= self.segments@.len(),
                columns >= 2,
                self.segments@ == old(self).segments@,
                self.total == old(self).total,
                self.truncated == old(self).truncated,
                ((key.0.0 as int, key.0.1 as int), (key.1.0 as int, key.1.1 as int))
                    == segment_key(candidate, columns),
                forall|k: int|
                    0 <= k < index ==> #[trigger] segment_key(self.segments@[k], columns)
                        != segment_key(candidate, columns),
            decreases self.segments@.len() - index,
        {
            let other = segment_grid_key(self.segments[index], columns);
            if other.0.0 == key.0.0 && other.0.1 == key.0.1 && other.1.0 == key.1.0 && other.1.1
                == key.1.1 {
                proof {
                    assert(segment_key(self.segments@[index as int], columns) == segment_key(
                        candidate,
                        columns,
                    ));
                }
                return;
            }
            index = index + 1;
        }
        self.segments.push(candidate);
    }
}

proof fn lemma_spacing_monotone(s1: int, s2: int, span: int)
    requires
        0 <= s1 <= s2,
        0 <= span,
    ensures
        (s1 * span) / 255 <= (s2 * span) / 255,
{
    assert(s1 * span <= s2 * span) by (nonlinear_arith)
        requires
            0 <= s1 <= s2,
            0 <= span,
    ;
    vstd::arithmetic::div_mod::lemma_div_is_ordered(s1 * span, s2 * span, 255);
}

/// Whether `ordinal` of `total` is evenly spaced (`total > 0`).
fn is_evenly_spaced(ordinal: u64, total: u64) -> (selected: bool)
    requires
        0 < total < 0x1_0000_0000,
    ensures
        selected == evenly_spaced(ordinal as int, total as int),
{
    let denominator: u64 = 255;
    let mut s: u64 = 0;
    while s < 256
        invariant
            denominator == 255,
            s <= 256,
            0 < total < 0x1_0000_0000,
            forall|k: int| 0 <= k < s ==> #[trigger] ((k * (total - 1)) / 255) < ordinal,
        decreases 256 - s,
    {
        proof {
            assert(s * (total - 1) < 256 * 0x1_0000_0000) by (nonlinear_arith)
                requires
                    s < 256,
                    total < 0x1_0000_0000,
            ;
        }
        let target = s * (total - 1) / denominator;
        assert(target == (s * (total - 1)) / 255);
        if target == ordinal {
            assert(evenly_spaced(ordinal as int, total as int)) by {
                assert(0 <= s < MAX_INTERSECTION_SEGMENTS_PER_PAIR && (s * (total - 1)) / 255
                    == ordinal);
            }
            return true;
        }
        if target > ordinal {
            proof {
                assert forall|k: int|
                    0 <= k < MAX_INTERSECTION_SEGMENTS_PER_PAIR implies #[trigger] ((k * (total
                    - 1)) / 255) != ordinal by {
                    if k >= s {
                        lemma_spacing_monotone(s as int, k, total - 1);
                    }
                }
            }
            return false;
        }
        s = s + 1;
    }
    assert(!evenly_spaced(ordinal as int, total as int)) by {
        assert forall|k: int|
            0 <= k < MAX_INTERSECTION_SEGMENTS_PER_PAIR implies #[trigger] ((k * (total - 1)) / 255)
            != ordinal by {
            assert(((k * (total - 1)) / 255) < ordinal);
        }
    }
    false
}

/// Results of every function pair, with a validity bit and a visibility
/// bit per pair.
pub struct IntersectionCache {
    pairs: Vec<PairIntersections>,
    valid_mask: u8,
    visibility_mask: u8,
}

/// Whether bit `index` of `mask` is set.
pub open spec fn has_bit(mask: u8, index: usize) -> bool {
    mask & (1u8 << index) != 0
}

/// Abstract contents of the cache.
pub struct CacheModel {
    pub pairs: Seq<PairModel>,
    pub valid_mask: u8,
    pub visibility_mask: u8,
}

impl View for IntersectionCache {
    type V = CacheModel;

    closed spec fn view(&self) -> CacheModel {
        CacheModel {
            pairs: self.pairs@.map_values(|pair: PairIntersections| pair@),
            valid_mask: self.valid_mask,
            visibility_mask: self.visibility_mask,
        }
    }
}

impl CacheModel {
    pub open spec fn wf(self) -> bool {
        self.pairs.len() == MAX_FUNCTION_PAIRS
    }

    /// The results of `index`, when that pair is valid.
    pub open spec fn pair(self, index: usize) -> Option<PairModel> {
        if index < MAX_FUNCTION_PAIRS && has_bit(self.valid_mask, index) {
            Some(self.pairs[index as int])
        } else {
            None
        }
    }
}

impl IntersectionCache {
    /// Six empty pairs, none valid, none visible.
    pub fn new() -> (cache: IntersectionCache)
        ensures
            cache@.wf(),
            cache@.valid_mask == 0,
            cache@.visibility_mask == 0,
            forall|i: int|
                0 <= i < MAX_FUNCTION_PAIRS ==> (#[trigger] cache@.pairs[i]).segments.len() == 0
                    && cache@.pairs[i].total == 0 && !cache@.pairs[i].truncated,
    {
        let mut pairs: Vec<PairIntersections> = Vec::new();
        let mut i: usize = 0;
        while i < MAX_FUNCTION_PAIRS
            invariant
                i <= MAX_FUNCTION_PAIRS,
                pairs@.len() == i,
                forall|k: int|
                    0 <= k < i ==> (#[trigger] pairs@[k])@.segments.len() == 0 && pairs@[k]@.total
                        == 0 && !pairs@[k]@.truncated,
            decreases MAX_FUNCTION_PAIRS - i,
        {
            pairs.push(PairIntersections::empty());
            i = i + 1;
        }
        IntersectionCache { pairs, valid_mask: 0, visibility_mask: 0 }
    }

    /// Makes every pair visible.
    pub fn initialize(&mut self)
        ensures
            final(self)@ == (CacheModel { visibility_mask: 63, ..old(self)@ }),
    {
        self.visibility_mask = 63;
    }

    /// Results of pair `index`, if it is a pair and has been rebuilt since
    /// it was last invalidated.
    pub fn pair(&self, index: usize) -> (pair: Option<&PairIntersections>)
        requires
            self@.wf(),
        ensures
            match self@.pair(index) {
                Some(model) => pair matches Some(p) && p@ == model,
                None => pair is None,
            },
    {
        if index < MAX_FUNCTION_PAIRS && self.valid_mask & (1u8 << index) != 0 {
            Some(&self.pairs[index])
        } else {
            None
        }
    }

    /// Bit `i` set when pair `i` is shown.
    pub fn visibility_mask(&self) -> (mask: u8)
        ensures
            mask == self@.visibility_mask,
    {
        self.visibility_mask
    }

    /// Flips the visibility of pair `pair`; other indices are ignored.
    pub fn toggle_visibility(&mut self, pair: usize)
        ensures
            final(self)@.visibility_mask == if pair < MAX_FUNCTION_PAIRS {
                old(self)@.visibility_mask ^ (1u8 << pair)
            } else {
                old(self)@.visibility_mask
            },
            final(self)@.pairs == old(self)@.pairs,
            final(self)@.valid_mask == old(self)@.valid_mask,
    {
        if pair < MAX_FUNCTION_PAIRS {
            self.visibility_mask = self.visibility_mask ^ (1u8 << pair);
        }
    }

    /// Marks the pairs in `mask` as needing a rebuild.
    pub fn invalidate(&mut self, mask: u8)
        ensures
            final(self)@.valid_mask == old(self)@.valid_mask & !mask,
            final(self)@.pairs == old(self)@.pairs,
            final(self)@.visibility_mask == old(self)@.visibility_mask,
    {
        self.valid_mask = self.valid_mask & !mask;
    }

    /// Rebuilds pair `pair_index` from the segments its triangles produced,
    /// in scan order (empty when either function has no samples), and marks
    /// it valid. When the candidates fit they are all offered; otherwise the
    /// evenly spaced ones are. Duplicates by grid key are dropped.
    pub fn rebuild_pair(&mut self, pair_index: usize, candidates: &[PackedSegment], columns: usize)
        requires
            old(self)@.wf(),
            columns >= 2,
            candidates@.len() < 0x1_0000_0000,
        ensures
            final(self)@.wf(),
            final(self)@.visibility_mask == old(self)@.visibility_mask,
            pair_index >= MAX_FUNCTION_PAIRS ==> final(self)@ == old(self)@,
            pair_index < MAX_FUNCTION_PAIRS ==> {
                &&& final(self)@.valid_mask == old(self)@.valid_mask | (1u8 << pair_index)
                &&& final(self)@.pairs == old(self)@.pairs.update(
                    pair_index as int,
                    PairModel {
                        segments: gathered(candidates@, candidates@.len() as int, columns),
                        total: if candidates@.len() < 65535 {
                            candidates@.len() as u16
                        } else {
                            65535u16
                        },
                        truncated: candidates@.len() > MAX_INTERSECTION_SEGMENTS_PER_PAIR,
                    },
                )
            },
    {
        if pair_index >= MAX_FUNCTION_PAIRS {
            return;
        }
        let n = candidates.len();
        let truncated = n > MAX_INTERSECTION_SEGMENTS_PER_PAIR;
        let mut output = PairIntersections::empty();
        let mut ordinal: usize = 0;
        while ordinal < n
            invariant
                ordinal <= n == candidates@.len(),
                n < 0x1_0000_0000,
                columns >= 2,
                truncated == (n > MAX_INTERSECTION_SEGMENTS_PER_PAIR),
                output@.total == 0,
                !output@.truncated,
                output@.segments == gathered(candidates@, ordinal as int, columns),
            decreases n - ordinal,
        {
            let offer = if truncated {
                is_evenly_spaced(ordinal as u64, n as u64)
            } else {
                true
            };
            if offer {
                output.push_unique(candidates[ordinal], columns);
            }
            ordinal = ordinal + 1;
        }
        output.total = if n < 65535 {
            n as u16
        } else {
            65535
        };
        output.truncated = truncated;
        let ghost before = self.pairs@;
        self.pairs.set(pair_index, output);
        proof {
            assert(self.pairs@.map_values(|pair: PairIntersections| pair@) =~= before.map_values(
                |pair: PairIntersections| pair@,
            ).update(pair_index as int, output@));
        }
        self.valid_mask = self.valid_mask | (1u8 << pair_index);
    }
}

/// Toggling a pair's visibility twice restores every pair's visibility.
pub proof fn toggle_twice_restores(mask: u8, pair: usize)
    requires
        pair < MAX_FUNCTION_PAIRS,
    ensures
        (mask ^ (1u8 << pair)) ^ (1u8 << pair) == mask,
        has_bit(mask ^ (1u8 << pair), pair) != has_bit(mask, pair),
{
    assert((mask ^ (1u8 << pair)) ^ (1u8 << pair) == mask) by (bit_vector)
        requires
            pair < 6,
    ;
    assert(((mask ^ (1u8 << pair)) & (1u8 << pair) != 0) != (mask & (1u8 << pair) != 0))
        by (bit_vector)
        requires
            pair < 6,
    ;
}

/// After `invalidate(mask)` no pair named in `mask` is available, and pairs
/// outside `mask` keep their validity; a rebuild makes its pair available.
pub proof fn invalidate_then_rebuild(valid: u8, mask: u8, index: usize)
    requires
        index < MAX_FUNCTION_PAIRS,
    ensures
        has_bit(mask, index) ==> !has_bit(valid & !mask, index),
        !has_bit(mask, index) ==> has_bit(valid & !mask, index) == has_bit(valid, index),
        has_bit(valid | (1u8 << index), index),
{
    assert(mask & (1u8 << index) != 0 ==> (valid & !mask) & (1u8 << index) == 0) by (bit_vector)
        requires
            index < 6,
    ;
    assert(mask & (1u8 << index) == 0 ==> (((valid & !mask) & (1u8 << index) != 0) == (valid & (1u8
        << index) != 0))) by (bit_vector)
        requires
            index < 6,
    ;
    assert((valid | (1u8 << index)) & (1u8 << index) != 0) by (bit_vector)
        requires
            index < 6,
    ;
}

/// One operation on the cache, as far as pair validity is concerned.
#[derive(Clone, Copy, Debug, PartialEq, Eq, Structural)]
pub enum CacheOperation {
    Initialize,
    ToggleVisibility(usize),
    Invalidate(u8),
    RebuildPair(usize),
}

/// Validity mask after one operation, as the operations' contracts give it.
pub open spec fn valid_after(valid: u8, operation: CacheOperation) -> u8 {
    match operation {
        CacheOperation::Invalidate(mask) => valid & !mask,
        CacheOperation::RebuildPair(index) => if index < MAX_FUNCTION_PAIRS {
            valid | (1u8 << index)
        } else {
            valid
        },
        _ => valid,
    }
}

/// Validity mask of a new cache after a sequence of operations.
pub open spec fn valid_mask_after(operations: Seq<CacheOperation>) -> u8
    decreases operations.len(),
{
    if operations.len() == 0 {
        0
    } else {
        valid_after(valid_mask_after(operations.drop_last()), operations.last())
    }
}

/// Whether pair `index` was rebuilt at some point of `operations` and no
/// later invalidation named it.
pub open spec fn rebuilt_since_invalidated(operations: Seq<CacheOperation>, index: usize) -> bool
    decreases operations.len(),
{
    if operations.len() == 0 {
        false
    } else {
        let earlier = rebuilt_since_invalidated(operations.drop_last(), index);
        match operations.last() {
            CacheOperation::RebuildPair(rebuilt) => rebuilt == index || earlier,
            CacheOperation::Invalidate(mask) => !has_bit(mask, index) && earlier,
            _ => earlier,
        }
    }
}

proof fn lemma_step_bit(valid: u8, operation: CacheOperation, index: usize)
    requires
        index < MAX_FUNCTION_PAIRS,
    ensures
        has_bit(valid_after(valid, operation), index) == match operation {
            CacheOperation::RebuildPair(rebuilt) => rebuilt == index || has_bit(valid, index),
            CacheOperation::Invalidate(mask) => !has_bit(mask, index) && has_bit(valid, index),
            _ => has_bit(valid, index),
        },
{
    match operation {
        CacheOperation::Invalidate(mask) => {
            assert(((valid & !mask) & (1u8 << index) != 0) == (mask & (1u8 << index) == 0 && valid
                & (1u8 << index) != 0)) by (bit_vector)
                requires
                    index < 6,
            ;
        },
        CacheOperation::RebuildPair(rebuilt) => {
            if rebuilt < MAX_FUNCTION_PAIRS {
                assert(((valid | (1u8 << rebuilt)) & (1u8 << index) != 0) == (rebuilt == index || valid
                    & (1u8 << index) != 0)) by (bit_vector)
                    requires
                        index < 6,
                        rebuilt < 6,
                ;
            }
        },
        _ => {},
    }
}

/// A pair is available exactly when it has been rebuilt and no later
/// invalidation named it: starting from a new cache (nothing valid), only
/// a rebuild of a pair sets its validity and only an invalidation naming
/// it clears it; visibility changes never touch it.
pub proof fn validity_follows_rebuilds_and_invalidations(operations: Seq<CacheOperation>, index: usize)
    requires
        index < MAX_FUNCTION_PAIRS,
    ensures
        has_bit(valid_mask_after(operations), index) == rebuilt_since_invalidated(operations, index),
    decreases operations.len(),
{
    if operations.len() == 0 {
        assert(0u8 & (1u8 << index) == 0) by (bit_vector);
    } else {
        validity_follows_rebuilds_and_invalidations(operations.drop_last(), index);
        lemma_step_bit(valid_mask_after(operations.drop_last()), operations.last(), index);
    }
}

proof fn lemma_gathered(candidates: Seq<PackedSegment>, n: int, columns: usize)
    requires
        0 <= n,
    ensures
        gathered(candidates, n, columns).len() <= MAX_INTERSECTION_SEGMENTS_PER_PAIR,
        gathered(candidates, n, columns).len() <= n,
        forall|a: int, b: int|
            0 <= a < b < gathered(candidates, n, columns).len() ==> segment_key(
                #[trigger] gathered(candidates, n, columns)[a],
                columns,
            ) != segment_key(#[trigger] gathered(candidates, n, columns)[b], columns),
    decreases n,
{
    if n > 0 {
        lemma_gathered(candidates, n - 1, columns);
        let previous = gathered(candidates, n - 1, columns);
        let current = gathered(candidates, n, columns);
        let candidate = candidates[n - 1];
        if current != previous {
            assert(current == previous.push(candidate));
            assert forall|a: int, b: int| 0 <= a < b < current.len() implies segment_key(
                #[trigger] current[a],
                columns,
            ) != segment_key(#[trigger] current[b], columns) by {
                if b == previous.len() {
                    assert(current[a] == previous[a]);
                    assert(!(segment_key(previous[a], columns) == segment_key(candidate, columns)));
                } else {
                    assert(current[a] == previous[a] && current[b] == previous[b]);
                }
            }
        }
    }
}

/// The segments a rebuild stores for a pair number at most
/// `MAX_INTERSECTION_SEGMENTS_PER_PAIR`, no more than the total it reports,
/// and no two of them have the same grid key (endpoint order ignored).
pub proof fn rebuilt_segments_are_bounded_and_distinct(candidates: Seq<PackedSegment>, columns: usize)
    ensures
        ({
            let stored = gathered(candidates, candidates.len() as int, columns);
            let total: u16 = if candidates.len() < 65535 {
                candidates.len() as u16
            } else {
                65535u16
            };
            &&& stored.len() <= MAX_INTERSECTION_SEGMENTS_PER_PAIR
            &&& stored.len() <= total
            &&& forall|a: int, b: int|
                0 <= a < b < stored.len() ==> segment_key(#[trigger] stored[a], columns)
                    != segment_key(#[trigger] stored[b], columns)
        }),
{
    lemma_gathered(candidates, candidates.len() as int, columns);
}

} // verus!
