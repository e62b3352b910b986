//! Fixed surface-sampling topology shared by sampling, rendering, and
//! intersection scanning, plus the vocabulary for rejected domains.
//!
//! Only a bounded set of regular grids exists; the largest one sizes every
//! fixed-capacity cache, and only the active rectangle is ever traversed.
use vstd::prelude::*;

verus! {

/// Fixed graph sampling choices.
#[derive(Clone, Copy, Debug, PartialEq, Eq, Structural)]
pub enum ResolutionPreset {
    Low,
    Standard,
    High,
}

/// Two consistently wound triangles cover every regular-grid cell.
pub const TRIANGLES_PER_CELL: usize = 2;
/// Maximum fixed storage width (the High preset); no user input can change it.
pub const MAX_COLUMNS: usize = 33;
/// Maximum fixed storage height (the High preset); no user input can change it.
pub const MAX_ROWS: usize = 25;

impl ResolutionPreset {
    /// Number of sample columns (world X) of this preset.
    pub open spec fn spec_columns(self) -> nat {
        match self {
            ResolutionPreset::Low => 17,
            ResolutionPreset::Standard => 25,
            ResolutionPreset::High => 33,
        }
    }

    /// Number of sample rows (world Y) of this preset.
    pub open spec fn spec_rows(self) -> nat {
        match self {
            ResolutionPreset::Low => 13,
            ResolutionPreset::Standard => 19,
            ResolutionPreset::High => 25,
        }
    }

    /// Triangles covering the active grid: two per cell.
    pub open spec fn spec_triangle_count(self) -> nat {
        ((self.spec_columns() - 1) * (self.spec_rows() - 1) * 2) as nat
    }

    pub open spec fn spec_next(self) -> ResolutionPreset {
        match self {
            ResolutionPreset::Low => ResolutionPreset::Standard,
            ResolutionPreset::Standard => ResolutionPreset::High,
            ResolutionPreset::High => ResolutionPreset::Low,
        }
    }

    pub open spec fn spec_previous(self) -> ResolutionPreset {
        match self {
            ResolutionPreset::Low => ResolutionPreset::High,
            ResolutionPreset::Standard => ResolutionPreset::Low,
            ResolutionPreset::High => ResolutionPreset::Standard,
        }
    }

    /// Active sample columns.
    pub fn columns(self) -> (count: usize)
        ensures
            count == self.spec_columns(),
            2 <= count <= MAX_COLUMNS,
    {
        match self {
            ResolutionPreset::Low => 17,
            ResolutionPreset::Standard => 25,
            ResolutionPreset::High => 33,
        }
    }

    /// Active sample rows.
    pub fn rows(self) -> (count: usize)
        ensures
            count == self.spec_rows(),
            2 <= count <= MAX_ROWS,
    {
        match self {
            ResolutionPreset::Low => 13,
            ResolutionPreset::Standard => 19,
            ResolutionPreset::High => 25,
        }
    }

    /// Number of triangles rendered for this preset.
    pub fn triangle_count(self) -> (count: usize)
        ensures
            count == self.spec_triangle_count(),
    {
        proof {
            assert(16 * 12 * 2 == 384) by (nonlinear_arith);
            assert(24 * 18 * 2 == 864) by (nonlinear_arith);
            assert(32 * 24 * 2 == 1536) by (nonlinear_arith);
        }
        match self {
            ResolutionPreset::Low => 384,
            ResolutionPreset::Standard => 864,
            ResolutionPreset::High => 1536,
        }
    }

    /// Cycles forward: Low, Standard, High, Low.
    pub fn next(self) -> (result: ResolutionPreset)
        ensures
            result == self.spec_next(),
    {
        match self {
            ResolutionPreset::Low => ResolutionPreset::Standard,
            ResolutionPreset::Standard => ResolutionPreset::High,
            ResolutionPreset::High => ResolutionPreset::Low,
        }
    }

    /// Cycles backward: Low, High, Standard, Low.
    pub fn previous(self) -> (result: ResolutionPreset)
        ensures
            result == self.spec_previous(),
    {
        match self {
            ResolutionPreset::Low => ResolutionPreset::High,
            ResolutionPreset::Standard => ResolutionPreset::Low,
            ResolutionPreset::High => ResolutionPreset::Standard,
        }
    }
}

/// Stepping forward and then backward (or backward then forward) through
/// the resolution presets returns to the preset one started from.
pub proof fn resolution_cycle_round_trip(preset: ResolutionPreset)
    ensures
        preset.spec_next().spec_previous() == preset,
        preset.spec_previous().spec_next() == preset,
        preset.spec_next().spec_next().spec_next() == preset,
{
}

/// Why a candidate domain cannot safely replace the active graph bounds.
#[derive(Clone, Copy, Debug, PartialEq, Eq, Structural)]
pub enum DomainError {
    /// At least one bound is NaN or infinite.
    NonFinite,
    /// A minimum is greater than or equal to its maximum.
    Inverted,
    /// At least one axis span is below the useful sampling threshold.
    TooNarrow,
    /// A bound or span exceeds the calculator-oriented safety limit.
    TooLarge,
}

} // verus!
