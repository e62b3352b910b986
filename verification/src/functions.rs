//! Fixed-capacity state for four independently editable mathematical surfaces.
//!
//! A function's source draft is deliberately separate from its last compiled
//! postfix bytecode. Invalid or cancelled edits may be retained for later work,
//! but can never replace the expression currently feeding sampled geometry.
use vstd::prelude::*;
use crate::editor::{initial_expression, is_ascii_bytes, utf8_text};
use vstd::utf8::valid_utf8;
use crate::expression::{compiled, CompiledExpression, ParseError, MAX_EXPRESSION_LENGTH};
use crate::graph::{Rgb888, SurfacePalette};

verus! {

pub const MAX_FUNCTIONS: usize = 4;
pub const MAX_FUNCTION_PAIRS: usize = 6;
/// One bit per function.
pub const ALL_FUNCTION_BITS: u8 = 15;
/// One bit per function pair.
pub const ALL_PAIR_BITS: u8 = 63;

/// Deterministic pair order used by caches, UI rows, and visibility bits.
pub const FUNCTION_PAIRS: [(usize, usize); MAX_FUNCTION_PAIRS] = [
    (0, 1),
    (0, 2),
    (0, 3),
    (1, 2),
    (1, 3),
    (2, 3),
];

/// The functions of pair `index` in the deterministic pair order.
pub open spec fn spec_function_pair(index: int) -> (usize, usize) {
    if index == 0 {
        (0, 1)
    } else if index == 1 {
        (0, 2)
    } else if index == 2 {
        (0, 3)
    } else if index == 3 {
        (1, 2)
    } else if index == 4 {
        (1, 3)
    } else {
        (2, 3)
    }
}

/// The functions of pair `index` (`index < MAX_FUNCTION_PAIRS`).
pub fn function_pair(index: usize) -> (pair: (usize, usize))
    requires
        index < MAX_FUNCTION_PAIRS,
    ensures
        pair == spec_function_pair(index as int),
{
    if index == 0 {
        (0, 1)
    } else if index == 1 {
        (0, 2)
    } else if index == 2 {
        (0, 3)
    } else if index == 3 {
        (1, 2)
    } else if index == 4 {
        (1, 3)
    } else {
        (2, 3)
    }
}

/// Position of the pair `(first, second)` in the pair order, if it is one.
pub fn pair_index(first: usize, second: usize) -> (index: Option<usize>)
    ensures
        index matches Some(i) ==> i < MAX_FUNCTION_PAIRS && spec_function_pair(i as int) == (
            first,
            second,
        ),
        index is None ==> forall|i: int|
            0 <= i < MAX_FUNCTION_PAIRS ==> spec_function_pair(i) != (first, second),
{
    let mut index: usize = 0;
    while index < MAX_FUNCTION_PAIRS
        invariant
            index <= MAX_FUNCTION_PAIRS,
            forall|i: int| 0 <= i < index ==> spec_function_pair(i) != (first, second),
        decreases MAX_FUNCTION_PAIRS - index,
    {
        let pair = function_pair(index);
        if pair.0 == first && pair.1 == second {
            return Some(index);
        }
        index = index + 1;
    }
    None
}

/// `2^n`.
pub open spec fn bit(n: nat) -> nat
    decreases n,
{
    if n == 0 {
        1
    } else {
        2 * bit((n - 1) as nat)
    }
}

/// Mask over the first `n` pairs with a bit for each pair that involves
/// `function`.
pub open spec fn pair_mask(function: usize, n: nat) -> nat
    decreases n,
{
    if n == 0 {
        0
    } else {
        let pair = spec_function_pair(n - 1);
        pair_mask(function, (n - 1) as nat) + if pair.0 == function || pair.1 == function {
            bit((n - 1) as nat)
        } else {
            0
        }
    }
}

proof fn lemma_pair_mask_bound(function: usize, n: nat)
    ensures
        pair_mask(function, n) < bit(n),
    decreases n,
{
    if n > 0 {
        lemma_pair_mask_bound(function, (n - 1) as nat);
    }
}

/// Bit `i` is set for each pair `i` that involves `function`.
pub fn pair_mask_for_function(function: usize) -> (mask: u8)
    ensures
        mask == pair_mask(function, MAX_FUNCTION_PAIRS as nat),
{
    let mut mask: u8 = 0;
    let mut weight: u8 = 1;
    let mut index: usize = 0;
    while index < MAX_FUNCTION_PAIRS
        invariant
            index <= MAX_FUNCTION_PAIRS,
            index < MAX_FUNCTION_PAIRS ==> weight == bit(index as nat),
            mask == pair_mask(function, index as nat),
        decreases MAX_FUNCTION_PAIRS - index,
    {
        proof {
            lemma_pair_mask_bound(function, index as nat);
            assert(bit(index as nat) <= 32) by {
                assert(bit(0) == 1);
                assert(bit(1) == 2);
                assert(bit(2) == 4);
                assert(bit(3) == 8);
                assert(bit(4) == 16);
                assert(bit(5) == 32);
            }
        }
        let pair = function_pair(index);
        if pair.0 == function || pair.1 == function {
            mask = mask + weight;
        }
        if index + 1 < MAX_FUNCTION_PAIRS {
            weight = weight * 2;
        }
        index = index + 1;
    }
    mask
}

/// Text the compiler sees for a stored draft: the draft when it is valid
/// UTF-8 (as ASCII always is), the empty text otherwise.
pub open spec fn compiled_text(draft: Seq<u8>) -> Seq<u8> {
    if valid_utf8(draft) {
        draft
    } else {
        Seq::empty()
    }
}

/// One function's active program, independent draft, and appearance.
pub struct FunctionSlot {
    pub compiled: Option<CompiledExpression>,
    pub draft_source: Vec<u8>,
    pub draft_matches_compiled: bool,
    pub enabled: bool,
    pub palette: SurfacePalette,
    pub custom_rgb: Rgb888,
}

impl FunctionSlot {
    /// The stored draft bytes.
    pub open spec fn draft_text(&self) -> Seq<u8> {
        self.draft_source@
    }

    /// No program, an empty draft that trivially matches it, disabled.
    pub fn empty(palette: SurfacePalette) -> (slot: FunctionSlot)
        ensures
            slot.compiled is None,
            slot.draft_text() == Seq::<u8>::empty(),
            slot.draft_matches_compiled,
            !slot.enabled,
            slot.palette == palette,
            slot.custom_rgb == (Rgb888 { red: 0, green: 0, blue: 0 }),
    {
        FunctionSlot {
            compiled: None,
            draft_source: Vec::new(),
            draft_matches_compiled: true,
            enabled: false,
            palette,
            custom_rgb: Rgb888 { red: 0, green: 0, blue: 0 },
        }
    }

    /// The stored draft.
    pub fn draft(&self) -> (draft: &[u8])
        ensures
            draft@ == self.draft_text(),
    {
        self.draft_source.as_slice()
    }

    /// A function can be shown only once it has a compiled program.
    pub fn can_enable(&self) -> (can: bool)
        ensures
            can == self.compiled is Some,
    {
        self.compiled.is_some()
    }

    /// Stores at most `MAX_EXPRESSION_LENGTH` leading bytes of `source` as
    /// the draft; the draft no longer matches the compiled program.
    pub fn set_draft(&mut self, source: &[u8])
        ensures
            final(self).draft_text() == source@.subrange(
                0,
                if source@.len() < MAX_EXPRESSION_LENGTH {
                    source@.len() as int
                } else {
                    MAX_EXPRESSION_LENGTH as int
                },
            ),
            !final(self).draft_matches_compiled,
            final(self).compiled == old(self).compiled,
            final(self).enabled == old(self).enabled,
            final(self).palette == old(self).palette,
            final(self).custom_rgb == old(self).custom_rgb,
    {
        let length = if source.len() < MAX_EXPRESSION_LENGTH {
            source.len()
        } else {
            MAX_EXPRESSION_LENGTH
        };
        let mut draft: Vec<u8> = Vec::new();
        let mut i: usize = 0;
        while i < length
            invariant
                i <= length <= source@.len(),
                draft@ == source@.subrange(0, i as int),
            decreases length - i,
        {
            draft.push(source[i]);
            i = i + 1;
        }
        self.draft_source = draft;
        self.draft_matches_compiled = false;
    }

    /// Compiles the draft. Success replaces the program and enables the
    /// function; failure changes nothing.
    pub fn compile_draft(&mut self, unrepresentable: Option<usize>) -> (r: Result<(), ParseError>)
        ensures
            match compiled(compiled_text(old(self).draft_text()), unrepresentable) {
                Ok(code) => {
                    &&& r is Ok
                    &&& final(self).compiled matches Some(program) && program@ == code
                    &&& final(self).draft_matches_compiled
                    &&& final(self).enabled
                },
                Err(e) => r == Err::<(), ParseError>(e) && final(self).compiled == old(
                    self,
                ).compiled && final(self).draft_matches_compiled == old(
                    self,
                ).draft_matches_compiled && final(self).enabled == old(self).enabled,
            },
            final(self).draft_text() == old(self).draft_text(),
            final(self).palette == old(self).palette,
            final(self).custom_rgb == old(self).custom_rgb,
    {
        let empty: Vec<u8> = Vec::new();
        let result = if utf8_text(self.draft_source.as_slice()).is_some() {
            CompiledExpression::compile(self.draft_source.as_slice(), unrepresentable)
        } else {
            CompiledExpression::compile(empty.as_slice(), unrepresentable)
        };
        match result {
            Ok(program) => {
                self.compiled = Some(program);
                self.draft_matches_compiled = true;
                self.enabled = true;
                Ok(())
            },
            Err(e) => Err(e),
        }
    }
}

/// Persistent bounded collection of every user-visible function.
pub struct FunctionSet {
    pub slots: Vec<FunctionSlot>,
}

/// Mask with bit `i` set for each of the first `n` slots that is enabled
/// and has a program.
pub open spec fn enabled_bits(slots: Seq<FunctionSlot>, n: nat) -> nat
    decreases n,
{
    if n == 0 {
        0
    } else {
        enabled_bits(slots, (n - 1) as nat) + if (n - 1) < slots.len() && slots[n - 1].enabled
            && slots[n - 1].compiled is Some {
            bit((n - 1) as nat)
        } else {
            0
        }
    }
}

proof fn lemma_enabled_bits_bound(slots: Seq<FunctionSlot>, n: nat)
    ensures
        enabled_bits(slots, n) < bit(n),
    decreases n,
{
    if n > 0 {
        lemma_enabled_bits_bound(slots, (n - 1) as nat);
    }
}

/// Palette given to slot `index` by `initialize`.
pub open spec fn default_palette(index: int) -> SurfacePalette {
    if index == 0 {
        SurfacePalette::Blue
    } else if index == 1 {
        SurfacePalette::Red
    } else if index == 2 {
        SurfacePalette::Green
    } else {
        SurfacePalette::Orange
    }
}

impl FunctionSet {
    /// Four empty, disabled Blue slots.
    pub fn new() -> (set: FunctionSet)
        ensures
            set.slots@.len() == MAX_FUNCTIONS,
            forall|i: int|
                0 <= i < MAX_FUNCTIONS ==> {
                    &&& (#[trigger] set.slots@[i]).compiled is None
                    &&& set.slots@[i].draft_text() == Seq::<u8>::empty()
                    &&& set.slots@[i].draft_matches_compiled
                    &&& !set.slots@[i].enabled
                    &&& set.slots@[i].palette == SurfacePalette::Blue
                },
    {
        let mut slots: Vec<FunctionSlot> = Vec::new();
        let mut i: usize = 0;
        while i < MAX_FUNCTIONS
            invariant
                i <= MAX_FUNCTIONS,
                slots@.len() == i,
                forall|k: int|
                    0 <= k < i ==> {
                        &&& (#[trigger] slots@[k]).compiled is None
                        &&& slots@[k].draft_text() == Seq::<u8>::empty()
                        &&& slots@[k].draft_matches_compiled
                        &&& !slots@[k].enabled
                        &&& slots@[k].palette == SurfacePalette::Blue
                    },
            decreases MAX_FUNCTIONS - i,
        {
            slots.push(FunctionSlot::empty(SurfacePalette::Blue));
            i = i + 1;
        }
        FunctionSet { slots }
    }

    /// First-use setup: unless the first slot already has a program, give
    /// the slots their palettes (Blue, Red, Green, Orange) and the default
    /// custom color, store `sin(x) * cos(y)` as the first draft and compile
    /// it, leaving the first function disabled if that fails.
    pub fn initialize(&mut self)
        requires
            old(self).slots@.len() == MAX_FUNCTIONS,
        ensures
            final(self).slots@.len() == MAX_FUNCTIONS,
            old(self).slots@[0].compiled is Some ==> final(self).slots@ == old(self).slots@,
            old(self).slots@[0].compiled is None ==> {
                &&& forall|i: int|
                    0 <= i < MAX_FUNCTIONS ==> (#[trigger] final(self).slots@[i]).palette
                        == default_palette(i) && final(self).slots@[i].custom_rgb
                        == Rgb888::spec_default_custom()
                &&& forall|i: int|
                    1 <= i < MAX_FUNCTIONS ==> (#[trigger] final(self).slots@[i]).compiled
                        == old(self).slots@[i].compiled && final(self).slots@[i].enabled == old(
                        self,
                    ).slots@[i].enabled && final(self).slots@[i].draft_text() == old(
                        self,
                    ).slots@[i].draft_text()
                &&& final(self).slots@[0].draft_text() == initial_expression()
                &&& match compiled(initial_expression(), None) {
                    Ok(code) => final(self).slots@[0].compiled matches Some(program) && program@
                        == code && final(self).slots@[0].enabled
                        && final(self).slots@[0].draft_matches_compiled,
                    Err(_) => final(self).slots@[0].compiled is None
                        && !final(self).slots@[0].enabled,
                }
            },
    {
        if self.slots[0].compiled.is_some() {
            return;
        }
        let mut index: usize = 0;
        while index < MAX_FUNCTIONS
            invariant
                index <= MAX_FUNCTIONS,
                self.slots@.len() == MAX_FUNCTIONS,
                self.slots@[0].compiled is None,
                forall|i: int|
                    0 <= i < index ==> (#[trigger] self.slots@[i]).palette == default_palette(i)
                        && self.slots@[i].custom_rgb == Rgb888::spec_default_custom(),
                forall|i: int|
                    0 <= i < MAX_FUNCTIONS ==> (#[trigger] self.slots@[i]).compiled == old(
                        self,
                    ).slots@[i].compiled && self.slots@[i].enabled == old(self).slots@[i].enabled
                        && self.slots@[i].draft_text() == old(self).slots@[i].draft_text(),
            decreases MAX_FUNCTIONS - index,
        {
            let ghost before = self.slots@;
            let mut slot = self.slots.remove(index);
            slot.palette = if index == 0 {
                SurfacePalette::Blue
            } else if index == 1 {
                SurfacePalette::Red
            } else if index == 2 {
                SurfacePalette::Green
            } else {
                SurfacePalette::Orange
            };
            slot.custom_rgb = Rgb888::default_custom();
            self.slots.insert(index, slot);
            proof {
                assert(self.slots@ =~= before.update(index as int, slot));
            }
            index = index + 1;
        }
        let ghost before = self.slots@;
        let mut first = self.slots.remove(0);
        let source: [u8; 15] = [115, 105, 110, 40, 120, 41, 32, 42, 32, 99, 111, 115, 40, 121, 41];
        proof {
            assert(source@ =~= initial_expression());
        }
        first.set_draft(&source);
        proof {
            assert(first.draft_text() =~= initial_expression());
            assert(is_ascii_bytes(first.draft_text()));
            crate::editor::ascii_is_utf8(first.draft_text());
        }
        match first.compile_draft(None) {
            Ok(()) => {},
            Err(_) => {
                first.enabled = false;
            },
        }
        self.slots.insert(0, first);
        proof {
            assert(self.slots@ =~= before.update(0, first));
        }
    }

    /// Bit `i` is set when slot `i` is enabled and has a program.
    pub fn enabled_mask(&self) -> (mask: u8)
        ensures
            mask == enabled_bits(self.slots@, MAX_FUNCTIONS as nat),
    {
        let mut mask: u8 = 0;
        let mut weight: u8 = 1;
        let mut index: usize = 0;
        while index < MAX_FUNCTIONS
            invariant
                index <= MAX_FUNCTIONS,
                index < MAX_FUNCTIONS ==> weight == bit(index as nat),
                mask == enabled_bits(self.slots@, index as nat),
            decreases MAX_FUNCTIONS - index,
        {
            proof {
                lemma_enabled_bits_bound(self.slots@, index as nat);
                assert(bit(index as nat) <= 8) by {
                    assert(bit(0) == 1);
                    assert(bit(1) == 2);
                    assert(bit(2) == 4);
                    assert(bit(3) == 8);
                }
            }
            if index < self.slots.len() && self.slots[index].enabled
                && self.slots[index].compiled.is_some() {
                mask = mask + weight;
            }
            if index + 1 < MAX_FUNCTIONS {
                weight = weight * 2;
            }
            index = index + 1;
        }
        mask
    }
}

/// Resets `functions` to four empty slots and runs first-use setup.
pub fn reset_active_functions(functions: &mut FunctionSet)
    ensures
        final(functions).slots@.len() == MAX_FUNCTIONS,
        final(functions).slots@[0].draft_text() == initial_expression(),
        forall|i: int|
            0 <= i < MAX_FUNCTIONS ==> (#[trigger] final(functions).slots@[i]).palette
                == default_palette(i),
        forall|i: int|
            1 <= i < MAX_FUNCTIONS ==> (#[trigger] final(functions).slots@[i]).compiled is None
                && !final(functions).slots@[i].enabled && final(functions).slots@[i].draft_text()
                == Seq::<u8>::empty(),
{
    *functions = FunctionSet::new();
    functions.initialize();
}

} // verus!
