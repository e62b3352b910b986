use grapher3d::expression::{
    literal_spans, validate_bytecode, CompiledExpression, Instruction, ParseError,
};

fn program(source: &[u8]) -> Vec<Instruction> {
    let compiled = CompiledExpression::compile(source, None).expect("valid expression");
    (0..compiled.len()).map(|i| compiled.instruction(i)).collect()
}

fn error(source: &[u8]) -> ParseError {
    match CompiledExpression::compile(source, None) {
        Ok(_) => panic!("expected an error"),
        Err(error) => error,
    }
}

fn number(start: usize, end: usize) -> Instruction {
    Instruction::Number { start, end }
}

#[test]
fn malformed_expressions_are_rejected() {
    assert!(matches!(
        CompiledExpression::compile(b"", None),
        Err(ParseError::EmptyExpression)
    ));
    assert!(CompiledExpression::compile(b"2 +", None).is_err());
    assert!(CompiledExpression::compile(b"(x + y", None).is_err());
    assert!(CompiledExpression::compile(b"x y", None).is_err());
    assert!(CompiledExpression::compile(b"unknown(x)", None).is_err());
    assert!(CompiledExpression::compile(b"sin x", None).is_err());
    assert!(CompiledExpression::compile(b"x @ y", None).is_err());
}

#[test]
fn fixed_capacity_limits_are_reported() {
    let too_long = [b'x'; 97];
    assert!(matches!(
        CompiledExpression::compile(&too_long, None),
        Err(ParseError::ExpressionTooLong)
    ));
    let overflowing = [Instruction::X; 33];
    assert_eq!(
        validate_bytecode(&overflowing),
        Err(ParseError::EvaluationStackOverflow)
    );
}

#[test]
fn constants_and_variables_compile_to_pushes() {
    assert_eq!(program(b"2.5"), vec![number(0, 3)]);
    assert_eq!(program(b"x + y"), vec![Instruction::X, Instruction::Y, Instruction::Add]);
    assert_eq!(program(b"e"), vec![Instruction::Euler]);
}

#[test]
fn precedence_and_parentheses_order_the_postfix_code() {
    assert_eq!(
        program(b"2 + 3 * 4"),
        vec![number(0, 1), number(4, 5), number(8, 9), Instruction::Multiply, Instruction::Add]
    );
    assert_eq!(
        program(b"(2 + 3) * 4"),
        vec![number(1, 2), number(5, 6), Instruction::Add, number(10, 11), Instruction::Multiply]
    );
}

#[test]
fn unary_minus_and_power_group_from_the_right() {
    assert_eq!(
        program(b"-2^2"),
        vec![number(1, 2), number(3, 4), Instruction::Power, Instruction::Negate]
    );
    assert_eq!(
        program(b"2^3^2"),
        vec![number(0, 1), number(2, 3), number(4, 5), Instruction::Power, Instruction::Power]
    );
    assert_eq!(
        program(b"2^-2"),
        vec![number(0, 1), number(3, 4), Instruction::Negate, Instruction::Power]
    );
    assert_eq!(
        program(b"-x * y"),
        vec![Instruction::X, Instruction::Negate, Instruction::Y, Instruction::Multiply]
    );
}

#[test]
fn functions_take_their_fixed_number_of_arguments() {
    assert_eq!(
        program(b"sin(x) * cos(y)"),
        vec![Instruction::X, Instruction::Sin, Instruction::Y, Instruction::Cos, Instruction::Multiply]
    );
    assert_eq!(
        program(b"log(10, x)"),
        vec![number(4, 6), Instruction::X, Instruction::Log]
    );
    assert_eq!(
        program(b"max(x, min(y, 1))"),
        vec![Instruction::X, Instruction::Y, number(14, 15), Instruction::Min, Instruction::Max]
    );
    assert_eq!(error(b"log(10)"), ParseError::InvalidArgumentCount);
    assert_eq!(error(b"sin(x, y)"), ParseError::InvalidArgumentCount);
    assert_eq!(error(b"min(x, y, 1)"), ParseError::InvalidArgumentCount);
    assert_eq!(error(b"(x, y)"), ParseError::InvalidArgumentSeparator);
    assert_eq!(error(b"x, y"), ParseError::InvalidArgumentSeparator);
}

#[test]
fn each_error_has_an_input() {
    assert_eq!(error(b"   "), ParseError::EmptyExpression);
    assert_eq!(error(b"x $"), ParseError::InvalidCharacter);
    assert_eq!(error(b"1e"), ParseError::InvalidNumber);
    assert_eq!(error(b"1e39"), ParseError::InvalidNumber);
    assert_eq!(error(b"."), ParseError::InvalidNumber);
    assert_eq!(error(b"foo(x)"), ParseError::UnknownFunction);
    assert_eq!(error(b"x +"), ParseError::MissingOperand);
    assert_eq!(error(b"sin()"), ParseError::MissingOperand);
    assert_eq!(error(b"x y"), ParseError::MissingOperator);
    assert_eq!(error(b"x)"), ParseError::MissingOpeningParenthesis);
    assert_eq!(error(b"sin x"), ParseError::MissingOpeningParenthesis);
    assert_eq!(error(b"(x"), ParseError::MissingClosingParenthesis);
    assert_eq!(error(&[b'('; 33]), ParseError::OperatorStackOverflow);
    let long_sum = b"x+x+x+x+x+x+x+x+x+x+x+x+x+x+x+x+x+x+x+x+x+x+x+x+x+x+x+x+x+x+x+x+x";
    assert_eq!(error(long_sum), ParseError::BytecodeTooLarge);
}

#[test]
fn unrepresentable_literal_is_an_invalid_number_where_the_scan_reaches_it() {
    assert_eq!(
        CompiledExpression::compile(b"x + 9e38", Some(4)).err(),
        Some(ParseError::InvalidNumber)
    );
    assert_eq!(
        CompiledExpression::compile(b"x y 9e38", Some(4)).err(),
        Some(ParseError::MissingOperator)
    );
    assert!(CompiledExpression::compile(b"x + 9e38", Some(0)).is_ok());
}

#[test]
fn literal_spans_follow_reading_order() {
    assert_eq!(literal_spans(b"1 + 2.5*x^.5"), vec![(0, 1), (4, 7), (10, 12)]);
    assert_eq!(literal_spans(b"log(10, 1e-3)"), vec![(4, 6), (8, 12)]);
    assert_eq!(literal_spans(b"2 + 1e + 3"), vec![(0, 1)]);
    assert_eq!(literal_spans(b"sin(x)"), vec![]);
}
