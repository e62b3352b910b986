use grapher3d::expression::{CompiledExpression, ParseError};
use grapher3d::functions::{
    pair_index, pair_mask_for_function, reset_active_functions, FunctionSet, ALL_FUNCTION_BITS,
    FUNCTION_PAIRS, MAX_FUNCTIONS,
};
use grapher3d::graph::SurfacePalette;

fn program(expression: &CompiledExpression) -> Vec<grapher3d::expression::Instruction> {
    (0..expression.len()).map(|i| expression.instruction(i)).collect()
}

#[test]
fn defaults_and_pair_order_are_stable() {
    let mut functions = FunctionSet::new();
    functions.initialize();
    assert_eq!(functions.enabled_mask(), 1);
    assert_eq!(functions.slots[0].draft(), b"sin(x) * cos(y)");
    assert!(functions.slots[0].compiled.is_some());
    assert!(functions.slots[0].draft_matches_compiled);
    assert_eq!(functions.slots[0].palette, SurfacePalette::Blue);
    assert_eq!(functions.slots[1].palette, SurfacePalette::Red);
    assert_eq!(functions.slots[2].palette, SurfacePalette::Green);
    assert_eq!(functions.slots[3].palette, SurfacePalette::Orange);
    for slot in &functions.slots[1..] {
        assert!(!slot.enabled);
        assert!(slot.compiled.is_none());
        assert!(slot.draft().is_empty());
    }
    assert_eq!(FUNCTION_PAIRS, [(0, 1), (0, 2), (0, 3), (1, 2), (1, 3), (2, 3)]);
    assert_eq!(pair_mask_for_function(0), 0b000111);
    assert_eq!(pair_mask_for_function(3), 0b110100);
}

#[test]
fn invalid_draft_preserves_compiled_expression() {
    let mut functions = FunctionSet::new();
    functions.initialize();
    let before = program(functions.slots[0].compiled.as_ref().unwrap());
    functions.slots[0].set_draft(b"sin(");
    assert!(functions.slots[0].compile_draft(None).is_err());
    assert_eq!(program(functions.slots[0].compiled.as_ref().unwrap()), before);
    assert!(!functions.slots[0].draft_matches_compiled);
}

#[test]
fn four_slots_keep_independent_sources_programs_and_colors() {
    let mut functions = FunctionSet::new();
    functions.initialize();
    let expressions: [&[u8]; 3] = [b"x", b"y", b"x+y"];
    let mut index = 1;
    while index < MAX_FUNCTIONS {
        functions.slots[index].set_draft(expressions[index - 1]);
        functions.slots[index].compile_draft(None).unwrap();
        index += 1;
    }
    assert_eq!(functions.enabled_mask(), ALL_FUNCTION_BITS);
    for index in 1..MAX_FUNCTIONS {
        let expected = CompiledExpression::compile(expressions[index - 1], None).unwrap();
        assert_eq!(
            program(functions.slots[index].compiled.as_ref().unwrap()),
            program(&expected)
        );
    }
}

#[test]
fn pair_positions_and_masks_cover_every_pair() {
    assert_eq!(pair_index(0, 1), Some(0));
    assert_eq!(pair_index(2, 3), Some(5));
    assert_eq!(pair_index(1, 0), None);
    assert_eq!(pair_mask_for_function(1), 0b011001);
    assert_eq!(pair_mask_for_function(2), 0b101010);
    assert_eq!(pair_mask_for_function(4), 0);
}

#[test]
fn drafts_are_truncated_to_the_expression_capacity() {
    let mut functions = FunctionSet::new();
    functions.slots[2].set_draft(&[b'x'; 120]);
    assert_eq!(functions.slots[2].draft().len(), 96);
    assert!(!functions.slots[2].draft_matches_compiled);
    functions.slots[2].set_draft(&[0xff, 0xfe]);
    assert_eq!(
        functions.slots[2].compile_draft(None),
        Err(grapher3d::expression::ParseError::EmptyExpression)
    );
}

#[test]
fn reset_restores_first_use_state() {
    let mut functions = FunctionSet::new();
    functions.slots[1].set_draft(b"x");
    functions.slots[1].compile_draft(None).unwrap();
    reset_active_functions(&mut functions);
    assert_eq!(functions.enabled_mask(), 1);
    assert!(functions.slots[1].compiled.is_none());
}

#[test]
fn draft_that_is_not_utf8_compiles_as_empty_text() {
    let mut functions = FunctionSet::new();
    functions.slots[0].set_draft(&[0xff, b'x']);
    assert_eq!(functions.slots[0].compile_draft(None), Err(ParseError::EmptyExpression));
    functions.slots[0].set_draft(b"x+1");
    assert_eq!(functions.slots[0].compile_draft(None), Ok(()));
}
