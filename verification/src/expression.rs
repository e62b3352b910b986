//! Expression compiler: a streaming tokenizer and shunting-yard parser that
//! turns an ASCII `z = f(x, y)` source into fixed-capacity postfix bytecode.
//!
//! The grammar has decimal literals, Euler's constant `e`, the variables `x`
//! and `y`, the binary operators `+ - * / ^`, unary minus, parentheses,
//! whitespace, the unary functions `sin cos tan sqrt abs floor ceil round exp
//! ln asin acos atan`, and the binary functions `min max log` whose two
//! arguments are separated by a comma. Power binds tighter than unary minus
//! and both are right-associative.
//!
//! A literal is kept in the bytecode as the span of source bytes that spell
//! it. Turning those digits into a binary floating-point value, and deciding
//! whether that value is representable, happens outside this crate; the
//! compiler is told where the first unrepresentable literal starts, if any,
//! and rejects it with `InvalidNumber` when its scan reaches it.
use vstd::prelude::*;
use crate::number::{is_digit, literal_end, literal_end_bounds, scan_literal};

verus! {

/// Maximum number of source bytes accepted by the compiler and editor.
pub const MAX_EXPRESSION_LENGTH: usize = 96;
/// Maximum number of postfix instructions in one compiled expression.
pub const MAX_BYTECODE_LENGTH: usize = 64;
/// Maximum depth of the parser's pending-operator stack.
pub const MAX_OPERATOR_DEPTH: usize = 32;
/// Maximum depth of the evaluation value stack.
pub const MAX_EVALUATION_DEPTH: usize = 32;

/// Why a source text was not accepted as an expression.
#[derive(Clone, Copy, Debug, PartialEq, Eq, Structural)]
pub enum ParseError {
    EmptyExpression,
    ExpressionTooLong,
    InvalidCharacter,
    InvalidNumber,
    UnknownFunction,
    MissingOperand,
    MissingOperator,
    MissingOpeningParenthesis,
    MissingClosingParenthesis,
    InvalidArgumentSeparator,
    InvalidArgumentCount,
    OperatorStackOverflow,
    BytecodeTooLarge,
    EvaluationStackOverflow,
}

/// Why one evaluation of accepted bytecode produced no height.
#[derive(Clone, Copy, Debug, PartialEq, Eq, Structural)]
pub enum EvaluationError {
    StackUnderflow,
    StackOverflow,
    InvalidBytecode,
    NonFiniteResult,
}

/// Named functions of the expression language.
#[derive(Clone, Copy, Debug, PartialEq, Eq, Structural)]
pub enum Function {
    Sin,
    Cos,
    Tan,
    Sqrt,
    Abs,
    Floor,
    Ceil,
    Round,
    Exp,
    Ln,
    Asin,
    Acos,
    Atan,
    Min,
    Max,
    Log,
}

/// One postfix instruction.
///
/// `Number` pushes the literal spelled by `source[start..end]`; `Euler`, `X`
/// and `Y` push a value; the unary instructions replace the top value; the
/// binary ones replace the top two values (left operand below right).
#[derive(Clone, Copy, Debug, PartialEq, Eq, Structural)]
pub enum Instruction {
    Number { start: usize, end: usize },
    Euler,
    X,
    Y,
    Add,
    Subtract,
    Multiply,
    Divide,
    Power,
    Negate,
    Sin,
    Cos,
    Tan,
    Sqrt,
    Abs,
    Floor,
    Ceil,
    Round,
    Exp,
    Ln,
    Asin,
    Acos,
    Atan,
    Min,
    Max,
    Log,
}

/// Pending entries of the parser's operator stack. A parenthesis records how
/// many argument separators its call has seen.
#[derive(Clone, Copy, Debug, PartialEq, Eq, Structural)]
pub enum Operator {
    Parenthesis(u8),
    Add,
    Subtract,
    Multiply,
    Divide,
    Power,
    Negate,
    Call(Function),
}

impl Function {
    /// Number of arguments the function takes.
    pub open spec fn spec_arity(self) -> nat {
        match self {
            Function::Min | Function::Max | Function::Log => 2,
            _ => 1,
        }
    }

    /// The instruction that applies the function.
    pub open spec fn spec_instruction(self) -> Instruction {
        match self {
            Function::Sin => Instruction::Sin,
            Function::Cos => Instruction::Cos,
            Function::Tan => Instruction::Tan,
            Function::Sqrt => Instruction::Sqrt,
            Function::Abs => Instruction::Abs,
            Function::Floor => Instruction::Floor,
            Function::Ceil => Instruction::Ceil,
            Function::Round => Instruction::Round,
            Function::Exp => Instruction::Exp,
            Function::Ln => Instruction::Ln,
            Function::Asin => Instruction::Asin,
            Function::Acos => Instruction::Acos,
            Function::Atan => Instruction::Atan,
            Function::Min => Instruction::Min,
            Function::Max => Instruction::Max,
            Function::Log => Instruction::Log,
        }
    }
}

impl Instruction {
    /// How many values the instruction consumes.
    pub open spec fn operands(self) -> int {
        match self {
            Instruction::Number { .. } | Instruction::Euler | Instruction::X | Instruction::Y => 0,
            Instruction::Add | Instruction::Subtract | Instruction::Multiply | Instruction::Divide
            | Instruction::Power | Instruction::Min | Instruction::Max | Instruction::Log => 2,
            _ => 1,
        }
    }
}

/// Binding strength of an operator; functions and parentheses have none.
pub open spec fn spec_precedence(operator: Operator) -> u8 {
    match operator {
        Operator::Add | Operator::Subtract => 1,
        Operator::Multiply | Operator::Divide => 2,
        Operator::Negate => 3,
        Operator::Power => 4,
        _ => 0,
    }
}

/// Instruction emitted when an operator leaves the stack.
pub open spec fn spec_instruction_for(operator: Operator) -> Instruction {
    match operator {
        Operator::Add => Instruction::Add,
        Operator::Subtract => Instruction::Subtract,
        Operator::Multiply => Instruction::Multiply,
        Operator::Divide => Instruction::Divide,
        Operator::Power => Instruction::Power,
        Operator::Call(f) => f.spec_instruction(),
        _ => Instruction::Negate,
    }
}

/// ASCII whitespace: space, tab, line feed, form feed, carriage return.
pub open spec fn is_space(byte: u8) -> bool {
    byte == 32 || byte == 9 || byte == 10 || byte == 12 || byte == 13
}

/// ASCII letters.
pub open spec fn is_letter(byte: u8) -> bool {
    (65 <= byte <= 90) || (97 <= byte <= 122)
}

/// First index at or after `i` that is not whitespace.
pub open spec fn skip_spaces(s: Seq<u8>, i: int) -> int
    decreases s.len() - i,
{
    if 0 <= i < s.len() && is_space(s[i]) {
        skip_spaces(s, i + 1)
    } else {
        i
    }
}

/// First index at or after `i` that is not a letter.
pub open spec fn letter_run_end(s: Seq<u8>, i: int) -> int
    decreases s.len() - i,
{
    if 0 <= i < s.len() && is_letter(s[i]) {
        letter_run_end(s, i + 1)
    } else {
        i
    }
}

/// The value named by the word `s[i..e]`, if it names one.
pub open spec fn value_named(s: Seq<u8>, i: int, e: int) -> Option<Instruction> {
    if e - i != 1 {
        None
    } else if s[i] == 120 {
        Some(Instruction::X)
    } else if s[i] == 121 {
        Some(Instruction::Y)
    } else if s[i] == 101 {
        Some(Instruction::Euler)
    } else {
        None
    }
}

/// The function named by the word `s[i..e]`, if it names one.
pub open spec fn function_named(s: Seq<u8>, i: int, e: int) -> Option<Function> {
    if e - i == 2 {
        if s[i] == 108 && s[i + 1] == 110 {
            Some(Function::Ln)
        } else {
            None
        }
    } else if e - i == 3 {
        let (a, b, c) = (s[i], s[i + 1], s[i + 2]);
        if a == 115 && b == 105 && c == 110 {
            Some(Function::Sin)
        } else if a == 99 && b == 111 && c == 115 {
            Some(Function::Cos)
        } else if a == 116 && b == 97 && c == 110 {
            Some(Function::Tan)
        } else if a == 97 && b == 98 && c == 115 {
            Some(Function::Abs)
        } else if a == 101 && b == 120 && c == 112 {
            Some(Function::Exp)
        } else if a == 108 && b == 111 && c == 103 {
            Some(Function::Log)
        } else if a == 109 && b == 105 && c == 110 {
            Some(Function::Min)
        } else if a == 109 && b == 97 && c == 120 {
            Some(Function::Max)
        } else {
            None
        }
    } else if e - i == 4 {
        let (a, b, c, d) = (s[i], s[i + 1], s[i + 2], s[i + 3]);
        if a == 115 && b == 113 && c == 114 && d == 116 {
            Some(Function::Sqrt)
        } else if a == 99 && b == 101 && c == 105 && d == 108 {
            Some(Function::Ceil)
        } else if a == 97 && b == 115 && c == 105 && d == 110 {
            Some(Function::Asin)
        } else if a == 97 && b == 99 && c == 111 && d == 115 {
            Some(Function::Acos)
        } else if a == 97 && b == 116 && c == 97 && d == 110 {
            Some(Function::Atan)
        } else {
            None
        }
    } else if e - i == 5 {
        let (a, b, c, d, f) = (s[i], s[i + 1], s[i + 2], s[i + 3], s[i + 4]);
        if a == 102 && b == 108 && c == 111 && d == 111 && f == 114 {
            Some(Function::Floor)
        } else if a == 114 && b == 111 && c == 117 && d == 110 && f == 100 {
            Some(Function::Round)
        } else {
            None
        }
    } else {
        None
    }
}

/// The parser between tokens: next source position, bytecode so far,
/// pending operators, whether an operand is expected next, and whether any
/// value has been read.
pub struct ParseModel {
    pub position: int,
    pub code: Seq<Instruction>,
    pub operators: Seq<Operator>,
    pub expects_operand: bool,
    pub saw_value: bool,
}

impl ParseModel {
    pub open spec fn initial() -> ParseModel {
        ParseModel {
            position: 0,
            code: Seq::empty(),
            operators: Seq::empty(),
            expects_operand: true,
            saw_value: false,
        }
    }

    pub open spec fn at(self, position: int) -> ParseModel {
        ParseModel { position, ..self }
    }

    pub open spec fn popped(self) -> ParseModel {
        ParseModel { operators: self.operators.drop_last(), ..self }
    }

    /// Appends one instruction, failing when the bytecode is full.
    pub open spec fn emit(self, instruction: Instruction) -> Result<ParseModel, ParseError> {
        if self.code.len() >= MAX_BYTECODE_LENGTH {
            Err(ParseError::BytecodeTooLarge)
        } else {
            Ok(ParseModel { code: self.code.push(instruction), ..self })
        }
    }

    /// Pushes one pending operator, failing when the stack is full.
    pub open spec fn push(self, operator: Operator) -> Result<ParseModel, ParseError> {
        if self.operators.len() >= MAX_OPERATOR_DEPTH {
            Err(ParseError::OperatorStackOverflow)
        } else {
            Ok(ParseModel { operators: self.operators.push(operator), ..self })
        }
    }

    /// A value was read.
    pub open spec fn valued(self) -> ParseModel {
        ParseModel { expects_operand: false, saw_value: true, ..self }
    }

    /// Emits pending operators down to the nearest parenthesis (kept) or
    /// until the stack is empty.
    pub open spec fn unwind(self) -> Result<ParseModel, ParseError>
        decreases self.operators.len(),
    {
        if self.operators.len() == 0 {
            Ok(self)
        } else {
            let top = self.operators.last();
            if top is Parenthesis {
                Ok(self)
            } else {
                let rest = self.popped();
                if rest.code.len() >= MAX_BYTECODE_LENGTH {
                    Err(ParseError::BytecodeTooLarge)
                } else {
                    ParseModel { code: rest.code.push(spec_instruction_for(top)), ..rest }.unwind()
                }
            }
        }
    }

    /// Emits the pending operators that bind at least as tightly as the
    /// incoming binary `operator` (strictly more tightly when it is
    /// right-associative), stopping at a parenthesis or a call.
    pub open spec fn reduce_for(self, operator: Operator) -> Result<ParseModel, ParseError>
        decreases self.operators.len(),
    {
        if self.operators.len() == 0 {
            Ok(self)
        } else {
            let top = self.operators.last();
            let incoming = spec_precedence(operator);
            let right = operator == Operator::Power || operator == Operator::Negate;
            if top is Parenthesis || top is Call {
                Ok(self)
            } else if !(spec_precedence(top) > incoming || (spec_precedence(top) == incoming
                && !right)) {
                Ok(self)
            } else {
                let rest = self.popped();
                if rest.code.len() >= MAX_BYTECODE_LENGTH {
                    Err(ParseError::BytecodeTooLarge)
                } else {
                    ParseModel { code: rest.code.push(spec_instruction_for(top)), ..rest }.reduce_for(
                        operator,
                    )
                }
            }
        }
    }

    /// An infix operator.
    pub open spec fn binary(self, operator: Operator) -> Result<ParseModel, ParseError> {
        if self.expects_operand {
            Err(ParseError::MissingOperand)
        } else {
            match self.reduce_for(operator) {
                Err(e) => Err(e),
                Ok(m) => match m.push(operator) {
                    Err(e) => Err(e),
                    Ok(m2) => Ok(ParseModel { expects_operand: true, ..m2 }),
                },
            }
        }
    }

    /// A closing parenthesis: finishes a group or a call, checking the
    /// call's argument count.
    pub open spec fn close(self) -> Result<ParseModel, ParseError> {
        if self.expects_operand {
            Err(ParseError::MissingOperand)
        } else {
            match self.unwind() {
                Err(e) => Err(e),
                Ok(m) => if m.operators.len() == 0 {
                    Err(ParseError::MissingOpeningParenthesis)
                } else {
                    match m.operators.last() {
                        Operator::Parenthesis(separators) => {
                            let m2 = m.popped();
                            if m2.operators.len() > 0 && m2.operators.last() is Call {
                                let f = m2.operators.last()->Call_0;
                                if separators + 1 != f.spec_arity() {
                                    Err(ParseError::InvalidArgumentCount)
                                } else {
                                    let m3 = m2.popped();
                                    if m3.code.len() >= MAX_BYTECODE_LENGTH {
                                        Err(ParseError::BytecodeTooLarge)
                                    } else {
                                        Ok(
                                            ParseModel {
                                                code: m3.code.push(f.spec_instruction()),
                                                expects_operand: false,
                                                ..m3
                                            },
                                        )
                                    }
                                }
                            } else {
                                Ok(ParseModel { expects_operand: false, ..m2 })
                            }
                        },
                        _ => Err(ParseError::MissingOpeningParenthesis),
                    }
                },
            }
        }
    }

    /// A comma: ends one argument of the innermost binary call.
    pub open spec fn separator(self) -> Result<ParseModel, ParseError> {
        if self.expects_operand {
            Err(ParseError::MissingOperand)
        } else {
            match self.unwind() {
                Err(e) => Err(e),
                Ok(m) => {
                    let n = m.operators.len();
                    if n == 0 {
                        Err(ParseError::InvalidArgumentSeparator)
                    } else {
                        match m.operators.last() {
                            Operator::Parenthesis(separators) => if n >= 2 && m.operators[n
                                - 2] is Call {
                                let f = m.operators[n - 2]->Call_0;
                                if separators + 2 > f.spec_arity() {
                                    Err(ParseError::InvalidArgumentCount)
                                } else {
                                    Ok(
                                        ParseModel {
                                            operators: m.operators.update(
                                                n - 1,
                                                Operator::Parenthesis((separators + 1) as u8),
                                            ),
                                            expects_operand: true,
                                            ..m
                                        },
                                    )
                                }
                            } else {
                                Err(ParseError::InvalidArgumentSeparator)
                            },
                            _ => Err(ParseError::InvalidArgumentSeparator),
                        }
                    }
                },
            }
        }
    }
}

/// A literal at `p`; `unrepresentable` is where the first literal whose
/// value is not representable starts, if any.
pub open spec fn number_token(
    s: Seq<u8>,
    unrepresentable: Option<usize>,
    m: ParseModel,
    p: int,
) -> Result<ParseModel, ParseError> {
    if !m.expects_operand {
        Err(ParseError::MissingOperator)
    } else {
        match literal_end(s, p) {
            None => Err(ParseError::InvalidNumber),
            Some(e) => if unrepresentable == Some(p as usize) {
                Err(ParseError::InvalidNumber)
            } else {
                match m.emit(Instruction::Number { start: p as usize, end: e as usize }) {
                    Err(err) => Err(err),
                    Ok(m2) => Ok(m2.valued().at(e)),
                }
            },
        }
    }
}

/// A word at `p`: a variable, Euler's constant, or a function name that
/// must be followed (after optional whitespace) by `(`.
pub open spec fn word_token(s: Seq<u8>, m: ParseModel, p: int) -> Result<ParseModel, ParseError> {
    if !m.expects_operand {
        Err(ParseError::MissingOperator)
    } else {
        let e = letter_run_end(s, p);
        match value_named(s, p, e) {
            Some(instruction) => match m.emit(instruction) {
                Err(err) => Err(err),
                Ok(m2) => Ok(m2.valued().at(e)),
            },
            None => match function_named(s, p, e) {
                None => Err(ParseError::UnknownFunction),
                Some(f) => {
                    let q = skip_spaces(s, e);
                    if q >= s.len() || s[q] != 40 {
                        Err(ParseError::MissingOpeningParenthesis)
                    } else {
                        match m.push(Operator::Call(f)) {
                            Err(err) => Err(err),
                            Ok(m2) => match m2.push(Operator::Parenthesis(0)) {
                                Err(err) => Err(err),
                                Ok(m3) => Ok(m3.at(q + 1)),
                            },
                        }
                    }
                },
            },
        }
    }
}

/// A one-byte symbol at `p`.
pub open spec fn symbol_token(s: Seq<u8>, m: ParseModel, p: int) -> Result<ParseModel, ParseError> {
    let b = s[p];
    let m0 = m.at(p + 1);
    if b == 40 {
        if !m.expects_operand {
            Err(ParseError::MissingOperator)
        } else {
            m0.push(Operator::Parenthesis(0))
        }
    } else if b == 41 {
        m0.close()
    } else if b == 45 && m.expects_operand {
        m0.push(Operator::Negate)
    } else if b == 43 && m.expects_operand {
        Err(ParseError::MissingOperand)
    } else if b == 43 {
        m0.binary(Operator::Add)
    } else if b == 45 {
        m0.binary(Operator::Subtract)
    } else if b == 42 {
        m0.binary(Operator::Multiply)
    } else if b == 47 {
        m0.binary(Operator::Divide)
    } else if b == 94 {
        m0.binary(Operator::Power)
    } else if b == 44 {
        m0.separator()
    } else {
        Err(ParseError::InvalidCharacter)
    }
}

/// One token starting at `p`, which holds no whitespace.
pub open spec fn token(
    s: Seq<u8>,
    unrepresentable: Option<usize>,
    m: ParseModel,
    p: int,
) -> Result<ParseModel, ParseError> {
    let b = s[p];
    if is_digit(b) || b == 46 {
        number_token(s, unrepresentable, m, p)
    } else if is_letter(b) {
        word_token(s, m, p)
    } else {
        symbol_token(s, m, p)
    }
}

/// Reads tokens from `m.position` to the end of the source.
pub open spec fn scan(s: Seq<u8>, unrepresentable: Option<usize>, m: ParseModel) -> Result<
    ParseModel,
    ParseError,
>
    decreases s.len() - m.position,
{
    let p = skip_spaces(s, m.position);
    if p >= s.len() || p < m.position {
        Ok(m.at(p))
    } else {
        match token(s, unrepresentable, m, p) {
            Err(e) => Err(e),
            Ok(m2) => if p < m2.position <= s.len() {
                scan(s, unrepresentable, m2)
            } else {
                Ok(m2)
            },
        }
    }
}

/// Emits every pending operator at the end of the source.
pub open spec fn drain(m: ParseModel) -> Result<Seq<Instruction>, ParseError>
    decreases m.operators.len(),
{
    if m.operators.len() == 0 {
        Ok(m.code)
    } else {
        let top = m.operators.last();
        if top is Parenthesis {
            Err(ParseError::MissingClosingParenthesis)
        } else {
            let rest = m.popped();
            if rest.code.len() >= MAX_BYTECODE_LENGTH {
                Err(ParseError::BytecodeTooLarge)
            } else {
                drain(ParseModel { code: rest.code.push(spec_instruction_for(top)), ..rest })
            }
        }
    }
}

/// Runs `code[i..]` on a value stack of `depth` values: each instruction
/// needs its operands, no point may exceed the evaluation depth, and exactly
/// one value must remain.
pub open spec fn check_stack(code: Seq<Instruction>, i: int, depth: int) -> Result<(), ParseError>
    decreases code.len() - i,
{
    if i >= code.len() {
        if depth == 1 {
            Ok(())
        } else {
            Err(ParseError::MissingOperator)
        }
    } else if depth < code[i].operands() {
        Err(ParseError::MissingOperand)
    } else if depth - code[i].operands() + 1 > MAX_EVALUATION_DEPTH {
        Err(ParseError::EvaluationStackOverflow)
    } else {
        check_stack(code, i + 1, depth - code[i].operands() + 1)
    }
}

/// The compiler's verdict on `s`.
pub open spec fn compiled(s: Seq<u8>, unrepresentable: Option<usize>) -> Result<
    Seq<Instruction>,
    ParseError,
> {
    if s.len() > MAX_EXPRESSION_LENGTH {
        Err(ParseError::ExpressionTooLong)
    } else {
        match scan(s, unrepresentable, ParseModel::initial()) {
            Err(e) => Err(e),
            Ok(m) => if !m.saw_value {
                Err(ParseError::EmptyExpression)
            } else if m.expects_operand {
                Err(ParseError::MissingOperand)
            } else {
                match drain(m) {
                    Err(e) => Err(e),
                    Ok(code) => match check_stack(code, 0, 0) {
                        Err(e) => Err(e),
                        Ok(_) => Ok(code),
                    },
                }
            },
        }
    }
}

/// Spans of the literals of `s[i..]` in reading order, up to the first
/// malformed one. Every digit or `.` outside a literal starts a literal.
pub open spec fn literal_spans_from(s: Seq<u8>, i: int) -> Seq<(usize, usize)>
    decreases s.len() - i,
{
    if i < 0 || i >= s.len() {
        Seq::empty()
    } else if is_digit(s[i]) || s[i] == 46 {
        match literal_end(s, i) {
            Some(e) => if i < e <= s.len() {
                seq![(i as usize, e as usize)] + literal_spans_from(s, e)
            } else {
                Seq::empty()
            },
            None => Seq::empty(),
        }
    } else {
        literal_spans_from(s, i + 1)
    }
}

/// The parser step `expected` was taken: on success the state became the
/// expected one, and an error is reported as the expected error.
pub open spec fn agrees(
    r: Result<(), ParseError>,
    after: ParseModel,
    expected: Result<ParseModel, ParseError>,
) -> bool {
    match expected {
        Ok(m) => r is Ok && after == m,
        Err(e) => r == Err::<(), ParseError>(e),
    }
}

impl Function {
    /// Number of arguments the function takes.
    pub fn arity(self) -> (n: u8)
        ensures
            n == self.spec_arity(),
    {
        match self {
            Function::Min | Function::Max | Function::Log => 2,
            _ => 1,
        }
    }

    /// The instruction that applies the function.
    pub fn instruction(self) -> (instruction: Instruction)
        ensures
            instruction == self.spec_instruction(),
    {
        match self {
            Function::Sin => Instruction::Sin,
            Function::Cos => Instruction::Cos,
            Function::Tan => Instruction::Tan,
            Function::Sqrt => Instruction::Sqrt,
            Function::Abs => Instruction::Abs,
            Function::Floor => Instruction::Floor,
            Function::Ceil => Instruction::Ceil,
            Function::Round => Instruction::Round,
            Function::Exp => Instruction::Exp,
            Function::Ln => Instruction::Ln,
            Function::Asin => Instruction::Asin,
            Function::Acos => Instruction::Acos,
            Function::Atan => Instruction::Atan,
            Function::Min => Instruction::Min,
            Function::Max => Instruction::Max,
            Function::Log => Instruction::Log,
        }
    }
}

/// Binding strength of an operator: `+ -` 1, `* /` 2, unary minus 3, `^` 4,
/// and 0 for parentheses and calls.
pub fn precedence(operator: Operator) -> (p: u8)
    ensures
        p == spec_precedence(operator),
{
    match operator {
        Operator::Add | Operator::Subtract => 1,
        Operator::Multiply | Operator::Divide => 2,
        Operator::Negate => 3,
        Operator::Power => 4,
        _ => 0,
    }
}

/// Power and unary minus group from the right.
pub fn is_right_associative(operator: Operator) -> (right: bool)
    ensures
        right == (operator == Operator::Power || operator == Operator::Negate),
{
    match operator {
        Operator::Power | Operator::Negate => true,
        _ => false,
    }
}

/// Whether a pending operator is a function call.
pub fn is_function(operator: Operator) -> (call: bool)
    ensures
        call == (operator is Call),
{
    match operator {
        Operator::Call(_) => true,
        _ => false,
    }
}

fn instruction_for(operator: Operator) -> (instruction: Instruction)
    ensures
        instruction == spec_instruction_for(operator),
{
    match operator {
        Operator::Add => Instruction::Add,
        Operator::Subtract => Instruction::Subtract,
        Operator::Multiply => Instruction::Multiply,
        Operator::Divide => Instruction::Divide,
        Operator::Power => Instruction::Power,
        Operator::Call(f) => f.instruction(),
        _ => Instruction::Negate,
    }
}

fn spaces_end(s: &[u8], start: usize) -> (end: usize)
    requires
        start <= s@.len(),
    ensures
        end == skip_spaces(s@, start as int),
        start <= end <= s@.len(),
{
    let mut i = start;
    while i < s.len() && (s[i] == 32 || s[i] == 9 || s[i] == 10 || s[i] == 12 || s[i] == 13)
        invariant
            start <= i <= s@.len(),
            skip_spaces(s@, i as int) == skip_spaces(s@, start as int),
        decreases s@.len() - i,
    {
        i = i + 1;
    }
    i
}

fn letters_end(s: &[u8], start: usize) -> (end: usize)
    requires
        start <= s@.len(),
    ensures
        end == letter_run_end(s@, start as int),
        start <= end <= s@.len(),
        start < s@.len() && is_letter(s@[start as int]) ==> start < end,
{
    let mut i = start;
    while i < s.len() && ((65 <= s[i] && s[i] <= 90) || (97 <= s[i] && s[i] <= 122))
        invariant
            start <= i <= s@.len(),
            letter_run_end(s@, i as int) == letter_run_end(s@, start as int),
            start < s@.len() && is_letter(s@[start as int]) && i == start ==> i < s@.len()
                && is_letter(s@[i as int]),
        decreases s@.len() - i,
    {
        i = i + 1;
    }
    i
}

fn named_value(s: &[u8], start: usize, end: usize) -> (value: Option<Instruction>)
    requires
        start <= end <= s@.len(),
    ensures
        value == value_named(s@, start as int, end as int),
{
    if end - start != 1 {
        None
    } else if s[start] == 120 {
        Some(Instruction::X)
    } else if s[start] == 121 {
        Some(Instruction::Y)
    } else if s[start] == 101 {
        Some(Instruction::Euler)
    } else {
        None
    }
}

fn named_function(s: &[u8], i: usize, e: usize) -> (f: Option<Function>)
    requires
        i <= e <= s@.len(),
    ensures
        f == function_named(s@, i as int, e as int),
{
    let n = e - i;
    if n == 2 {
        if s[i] == 108 && s[i + 1] == 110 {
            Some(Function::Ln)
        } else {
            None
        }
    } else if n == 3 {
        let (a, b, c) = (s[i], s[i + 1], s[i + 2]);
        if a == 115 && b == 105 && c == 110 {
            Some(Function::Sin)
        } else if a == 99 && b == 111 && c == 115 {
            Some(Function::Cos)
        } else if a == 116 && b == 97 && c == 110 {
            Some(Function::Tan)
        } else if a == 97 && b == 98 && c == 115 {
            Some(Function::Abs)
        } else if a == 101 && b == 120 && c == 112 {
            Some(Function::Exp)
        } else if a == 108 && b == 111 && c == 103 {
            Some(Function::Log)
        } else if a == 109 && b == 105 && c == 110 {
            Some(Function::Min)
        } else if a == 109 && b == 97 && c == 120 {
            Some(Function::Max)
        } else {
            None
        }
    } else if n == 4 {
        let (a, b, c, d) = (s[i], s[i + 1], s[i + 2], s[i + 3]);
        if a == 115 && b == 113 && c == 114 && d == 116 {
            Some(Function::Sqrt)
        } else if a == 99 && b == 101 && c == 105 && d == 108 {
            Some(Function::Ceil)
        } else if a == 97 && b == 115 && c == 105 && d == 110 {
            Some(Function::Asin)
        } else if a == 97 && b == 99 && c == 111 && d == 115 {
            Some(Function::Acos)
        } else if a == 97 && b == 116 && c == 97 && d == 110 {
            Some(Function::Atan)
        } else {
            None
        }
    } else if n == 5 {
        let (a, b, c, d, f) = (s[i], s[i + 1], s[i + 2], s[i + 3], s[i + 4]);
        if a == 102 && b == 108 && c == 111 && d == 111 && f == 114 {
            Some(Function::Floor)
        } else if a == 114 && b == 111 && c == 117 && d == 110 && f == 100 {
            Some(Function::Round)
        } else {
            None
        }
    } else {
        None
    }
}

/// Parser state between tokens.
struct ParserState {
    position: usize,
    code: Vec<Instruction>,
    operators: Vec<Operator>,
    expects_operand: bool,
    saw_value: bool,
}

impl View for ParserState {
    type V = ParseModel;

    closed spec fn view(&self) -> ParseModel {
        ParseModel {
            position: self.position as int,
            code: self.code@,
            operators: self.operators@,
            expects_operand: self.expects_operand,
            saw_value: self.saw_value,
        }
    }
}

impl ParserState {
    fn new() -> (state: ParserState)
        ensures
            state@ == ParseModel::initial(),
    {
        ParserState {
            position: 0,
            code: Vec::new(),
            operators: Vec::new(),
            expects_operand: true,
            saw_value: false,
        }
    }

    fn emit(&mut self, instruction: Instruction) -> (r: Result<(), ParseError>)
        ensures
            agrees(r, final(self)@, old(self)@.emit(instruction)),
    {
        if self.code.len() >= MAX_BYTECODE_LENGTH {
            return Err(ParseError::BytecodeTooLarge);
        }
        self.code.push(instruction);
        Ok(())
    }

    fn push(&mut self, operator: Operator) -> (r: Result<(), ParseError>)
        ensures
            agrees(r, final(self)@, old(self)@.push(operator)),
    {
        if self.operators.len() >= MAX_OPERATOR_DEPTH {
            return Err(ParseError::OperatorStackOverflow);
        }
        self.operators.push(operator);
        Ok(())
    }

    fn pop(&mut self) -> (top: Operator)
        requires
            old(self)@.operators.len() > 0,
        ensures
            top == old(self)@.operators.last(),
            final(self)@ == old(self)@.popped(),
    {
        match self.operators.pop() {
            Some(operator) => operator,
            None => Operator::Negate,
        }
    }

    fn unwind(&mut self) -> (r: Result<(), ParseError>)
        ensures
            agrees(r, final(self)@, old(self)@.unwind()),
    {
        loop
            invariant
                self@.unwind() == old(self)@.unwind(),
            decreases self@.operators.len(),
        {
            let n = self.operators.len();
            if n == 0 {
                return Ok(());
            }
            let top = self.operators[n - 1];
            if let Operator::Parenthesis(_) = top {
                return Ok(());
            }
            if self.code.len() >= MAX_BYTECODE_LENGTH {
                return Err(ParseError::BytecodeTooLarge);
            }
            self.pop();
            self.code.push(instruction_for(top));
        }
    }

    fn reduce_for(&mut self, operator: Operator) -> (r: Result<(), ParseError>)
        ensures
            agrees(r, final(self)@, old(self)@.reduce_for(operator)),
    {
        let incoming = precedence(operator);
        let right = is_right_associative(operator);
        loop
            invariant
                self@.reduce_for(operator) == old(self)@.reduce_for(operator),
                incoming == spec_precedence(operator),
                right == (operator == Operator::Power || operator == Operator::Negate),
            decreases self@.operators.len(),
        {
            let n = self.operators.len();
            if n == 0 {
                return Ok(());
            }
            let top = self.operators[n - 1];
            if let Operator::Parenthesis(_) = top {
                return Ok(());
            }
            if is_function(top) {
                return Ok(());
            }
            let binding = precedence(top);
            if !(binding > incoming || (binding == incoming && !right)) {
                return Ok(());
            }
            if self.code.len() >= MAX_BYTECODE_LENGTH {
                return Err(ParseError::BytecodeTooLarge);
            }
            self.pop();
            self.code.push(instruction_for(top));
        }
    }

    fn binary(&mut self, operator: Operator) -> (r: Result<(), ParseError>)
        ensures
            agrees(r, final(self)@, old(self)@.binary(operator)),
    {
        if self.expects_operand {
            return Err(ParseError::MissingOperand);
        }
        match self.reduce_for(operator) {
            Err(e) => return Err(e),
            Ok(()) => {},
        }
        match self.push(operator) {
            Err(e) => return Err(e),
            Ok(()) => {},
        }
        self.expects_operand = true;
        Ok(())
    }

    fn close(&mut self) -> (r: Result<(), ParseError>)
        ensures
            agrees(r, final(self)@, old(self)@.close()),
    {
        if self.expects_operand {
            return Err(ParseError::MissingOperand);
        }
        match self.unwind() {
            Err(e) => return Err(e),
            Ok(()) => {},
        }
        let n = self.operators.len();
        if n == 0 {
            return Err(ParseError::MissingOpeningParenthesis);
        }
        let top = self.operators[n - 1];
        match top {
            Operator::Parenthesis(separators) => {
                self.pop();
                let m = self.operators.len();
                if m > 0 {
                    let below = self.operators[m - 1];
                    if let Operator::Call(f) = below {
                        if separators as u16 + 1 != f.arity() as u16 {
                            return Err(ParseError::InvalidArgumentCount);
                        }
                        self.pop();
                        if self.code.len() >= MAX_BYTECODE_LENGTH {
                            return Err(ParseError::BytecodeTooLarge);
                        }
                        self.code.push(f.instruction());
                        self.expects_operand = false;
                        return Ok(());
                    }
                }
                self.expects_operand = false;
                Ok(())
            },
            _ => Err(ParseError::MissingOpeningParenthesis),
        }
    }

    fn separator(&mut self) -> (r: Result<(), ParseError>)
        ensures
            agrees(r, final(self)@, old(self)@.separator()),
    {
        if self.expects_operand {
            return Err(ParseError::MissingOperand);
        }
        match self.unwind() {
            Err(e) => return Err(e),
            Ok(()) => {},
        }
        let n = self.operators.len();
        if n == 0 {
            return Err(ParseError::InvalidArgumentSeparator);
        }
        let top = self.operators[n - 1];
        match top {
            Operator::Parenthesis(separators) => {
                if n >= 2 {
                    let below = self.operators[n - 2];
                    if let Operator::Call(f) = below {
                        if separators as u16 + 2 > f.arity() as u16 {
                            return Err(ParseError::InvalidArgumentCount);
                        }
                        self.operators.set(n - 1, Operator::Parenthesis(separators + 1));
                        self.expects_operand = true;
                        return Ok(());
                    }
                }
                Err(ParseError::InvalidArgumentSeparator)
            },
            _ => Err(ParseError::InvalidArgumentSeparator),
        }
    }

    fn number(&mut self, s: &[u8], unrepresentable: Option<usize>, p: usize) -> (r: Result<
        (),
        ParseError,
    >)
        requires
            p < s@.len(),
        ensures
            agrees(r, final(self)@, number_token(s@, unrepresentable, old(self)@, p as int)),
            r is Ok ==> p < final(self)@.position <= s@.len(),
    {
        if !self.expects_operand {
            return Err(ParseError::MissingOperator);
        }
        match scan_literal(s, p) {
            None => Err(ParseError::InvalidNumber),
            Some(e) => {
                if let Some(start) = unrepresentable {
                    if start == p {
                        return Err(ParseError::InvalidNumber);
                    }
                }
                match self.emit(Instruction::Number { start: p, end: e }) {
                    Err(err) => Err(err),
                    Ok(()) => {
                        self.expects_operand = false;
                        self.saw_value = true;
                        self.position = e;
                        Ok(())
                    },
                }
            },
        }
    }

    fn word(&mut self, s: &[u8], p: usize) -> (r: Result<(), ParseError>)
        requires
            p < s@.len(),
            is_letter(s@[p as int]),
        ensures
            agrees(r, final(self)@, word_token(s@, old(self)@, p as int)),
            r is Ok ==> p < final(self)@.position <= s@.len(),
    {
        if !self.expects_operand {
            return Err(ParseError::MissingOperator);
        }
        let e = letters_end(s, p);
        match named_value(s, p, e) {
            Some(instruction) => match self.emit(instruction) {
                Err(err) => Err(err),
                Ok(()) => {
                    self.expects_operand = false;
                    self.saw_value = true;
                    self.position = e;
                    Ok(())
                },
            },
            None => match named_function(s, p, e) {
                None => Err(ParseError::UnknownFunction),
                Some(f) => {
                    let q = spaces_end(s, e);
                    if q >= s.len() || s[q] != 40 {
                        return Err(ParseError::MissingOpeningParenthesis);
                    }
                    match self.push(Operator::Call(f)) {
                        Err(err) => return Err(err),
                        Ok(()) => {},
                    }
                    match self.push(Operator::Parenthesis(0)) {
                        Err(err) => return Err(err),
                        Ok(()) => {},
                    }
                    self.position = q + 1;
                    Ok(())
                },
            },
        }
    }

    fn symbol(&mut self, s: &[u8], p: usize) -> (r: Result<(), ParseError>)
        requires
            p < s@.len(),
        ensures
            agrees(r, final(self)@, symbol_token(s@, old(self)@, p as int)),
    {
        let b = s[p];
        let expects = self.expects_operand;
        self.position = p + 1;
        if b == 40 {
            if !expects {
                return Err(ParseError::MissingOperator);
            }
            self.push(Operator::Parenthesis(0))
        } else if b == 41 {
            self.close()
        } else if b == 45 && expects {
            self.push(Operator::Negate)
        } else if b == 43 && expects {
            Err(ParseError::MissingOperand)
        } else if b == 43 {
            self.binary(Operator::Add)
        } else if b == 45 {
            self.binary(Operator::Subtract)
        } else if b == 42 {
            self.binary(Operator::Multiply)
        } else if b == 47 {
            self.binary(Operator::Divide)
        } else if b == 94 {
            self.binary(Operator::Power)
        } else if b == 44 {
            self.separator()
        } else {
            Err(ParseError::InvalidCharacter)
        }
    }
}

/// A `Number` instruction spells a literal of `s` that is not the
/// unrepresentable one; every other instruction qualifies trivially.
pub open spec fn spelled_number(s: Seq<u8>, unrepresentable: Option<usize>, instruction: Instruction) -> bool {
    match instruction {
        Instruction::Number { start, end } => literal_end(s, start as int) == Some(end as int)
            && unrepresentable != Some(start),
        _ => true,
    }
}

/// Every literal of `code` is spelled by `s` and representable.
pub open spec fn numbers_spelled(s: Seq<u8>, unrepresentable: Option<usize>, code: Seq<Instruction>) -> bool {
    forall|k: int| 0 <= k < code.len() ==> #[trigger] spelled_number(s, unrepresentable, code[k])
}

/// The parser state respects its capacities and spells its literals.
pub open spec fn sound(s: Seq<u8>, unrepresentable: Option<usize>, m: ParseModel) -> bool {
    &&& m.code.len() <= MAX_BYTECODE_LENGTH
    &&& m.operators.len() <= MAX_OPERATOR_DEPTH
    &&& numbers_spelled(s, unrepresentable, m.code)
}

proof fn lemma_push_code(
    s: Seq<u8>,
    u: Option<usize>,
    code: Seq<Instruction>,
    instruction: Instruction,
)
    requires
        numbers_spelled(s, u, code),
        spelled_number(s, u, instruction),
    ensures
        numbers_spelled(s, u, code.push(instruction)),
{
    assert forall|k: int| 0 <= k < code.push(instruction).len() implies #[trigger] spelled_number(
        s,
        u,
        code.push(instruction)[k],
    ) by {
        if k < code.len() {
            assert(code.push(instruction)[k] == code[k]);
        }
    }
}

proof fn lemma_unwind(s: Seq<u8>, u: Option<usize>, m: ParseModel)
    requires
        sound(s, u, m),
    ensures
        m.unwind() matches Ok(r) ==> sound(s, u, r) && r.position == m.position
            && r.expects_operand == m.expects_operand && r.saw_value == m.saw_value,
    decreases m.operators.len(),
{
    if m.operators.len() > 0 && !(m.operators.last() is Parenthesis) {
        let rest = m.popped();
        if rest.code.len() < MAX_BYTECODE_LENGTH {
            lemma_push_code(s, u, rest.code, spec_instruction_for(m.operators.last()));
            lemma_unwind(
                s,
                u,
                ParseModel { code: rest.code.push(spec_instruction_for(m.operators.last())), ..rest },
            );
        }
    }
}

proof fn lemma_reduce_for(s: Seq<u8>, u: Option<usize>, m: ParseModel, operator: Operator)
    requires
        sound(s, u, m),
    ensures
        m.reduce_for(operator) matches Ok(r) ==> sound(s, u, r) && r.position == m.position
            && r.expects_operand == m.expects_operand && r.saw_value == m.saw_value,
    decreases m.operators.len(),
{
    if m.operators.len() > 0 {
        let top = m.operators.last();
        let rest = m.popped();
        if rest.code.len() < MAX_BYTECODE_LENGTH {
            lemma_push_code(s, u, rest.code, spec_instruction_for(top));
            lemma_reduce_for(
                s,
                u,
                ParseModel { code: rest.code.push(spec_instruction_for(top)), ..rest },
                operator,
            );
        }
    }
}

proof fn lemma_symbol(s: Seq<u8>, u: Option<usize>, m: ParseModel, p: int)
    requires
        sound(s, u, m),
        0 <= p < s.len(),
    ensures
        symbol_token(s, m, p) matches Ok(r) ==> sound(s, u, r) && r.position == p + 1,
{
    let m0 = m.at(p + 1);
    lemma_unwind(s, u, m0);
    lemma_reduce_for(s, u, m0, Operator::Add);
    lemma_reduce_for(s, u, m0, Operator::Subtract);
    lemma_reduce_for(s, u, m0, Operator::Multiply);
    lemma_reduce_for(s, u, m0, Operator::Divide);
    lemma_reduce_for(s, u, m0, Operator::Power);
    if let Ok(r) = m0.unwind() {
        if r.operators.len() > 0 {
            if let Operator::Parenthesis(k) = r.operators.last() {
                let m2 = r.popped();
                if m2.operators.len() > 0 && m2.operators.last() is Call {
                    let f = m2.operators.last()->Call_0;
                    lemma_push_code(s, u, m2.popped().code, f.spec_instruction());
                }
            }
        }
    }
}

proof fn lemma_letter_run_end(s: Seq<u8>, i: int)
    requires
        0 <= i <= s.len(),
    ensures
        i <= letter_run_end(s, i) <= s.len(),
    decreases s.len() - i,
{
    if i < s.len() && is_letter(s[i]) {
        lemma_letter_run_end(s, i + 1);
    }
}

proof fn lemma_skip_spaces(s: Seq<u8>, i: int)
    requires
        0 <= i <= s.len(),
    ensures
        i <= skip_spaces(s, i) <= s.len(),
    decreases s.len() - i,
{
    if i < s.len() && is_space(s[i]) {
        lemma_skip_spaces(s, i + 1);
    }
}

/// A token keeps the parser sound and moves strictly forward.
proof fn lemma_token(s: Seq<u8>, u: Option<usize>, m: ParseModel, p: int)
    requires
        sound(s, u, m),
        0 <= p < s.len(),
        s.len() <= MAX_EXPRESSION_LENGTH,
    ensures
        token(s, u, m, p) matches Ok(r) ==> sound(s, u, r) && p < r.position <= s.len(),
{
    let b = s[p];
    if is_digit(b) || b == 46 {
        literal_end_bounds(s, p);
        if let Some(e) = literal_end(s, p) {
            if u != Some(p as usize) {
                lemma_push_code(
                    s,
                    u,
                    m.code,
                    Instruction::Number { start: p as usize, end: e as usize },
                );
            }
        }
    } else if is_letter(b) {
        lemma_letter_run_end(s, p);
        let e = letter_run_end(s, p);
        lemma_skip_spaces(s, e);
        if let Some(instruction) = value_named(s, p, e) {
            lemma_push_code(s, u, m.code, instruction);
        }
    } else {
        lemma_symbol(s, u, m, p);
    }
}

/// Scanning keeps the parser sound.
proof fn lemma_scan(s: Seq<u8>, u: Option<usize>, m: ParseModel)
    requires
        sound(s, u, m),
        0 <= m.position <= s.len(),
        s.len() <= MAX_EXPRESSION_LENGTH,
    ensures
        scan(s, u, m) matches Ok(r) ==> sound(s, u, r),
    decreases s.len() - m.position,
{
    let p = skip_spaces(s, m.position);
    lemma_skip_spaces(s, m.position);
    if p < s.len() {
        lemma_token(s, u, m, p);
        if let Ok(m2) = token(s, u, m, p) {
            lemma_scan(s, u, m2);
        }
    }
}

/// Draining yields bytecode within capacity whose literals are spelled.
proof fn lemma_drain(s: Seq<u8>, u: Option<usize>, m: ParseModel)
    requires
        sound(s, u, m),
    ensures
        drain(m) matches Ok(code) ==> code.len() <= MAX_BYTECODE_LENGTH && numbers_spelled(
            s,
            u,
            code,
        ),
    decreases m.operators.len(),
{
    if m.operators.len() > 0 && !(m.operators.last() is Parenthesis) {
        let rest = m.popped();
        if rest.code.len() < MAX_BYTECODE_LENGTH {
            lemma_push_code(s, u, rest.code, spec_instruction_for(m.operators.last()));
            lemma_drain(
                s,
                u,
                ParseModel { code: rest.code.push(spec_instruction_for(m.operators.last())), ..rest },
            );
        }
    }
}

impl ParserState {
    fn token(&mut self, s: &[u8], unrepresentable: Option<usize>, p: usize) -> (r: Result<
        (),
        ParseError,
    >)
        requires
            p < s@.len(),
            s@.len() <= MAX_EXPRESSION_LENGTH,
            sound(s@, unrepresentable, old(self)@),
        ensures
            agrees(r, final(self)@, token(s@, unrepresentable, old(self)@, p as int)),
    {
        let b = s[p];
        if (48 <= b && b <= 57) || b == 46 {
            self.number(s, unrepresentable, p)
        } else if (65 <= b && b <= 90) || (97 <= b && b <= 122) {
            self.word(s, p)
        } else {
            self.symbol(s, p)
        }
    }

    fn scan(&mut self, s: &[u8], unrepresentable: Option<usize>) -> (r: Result<(), ParseError>)
        requires
            old(self)@.position <= s@.len(),
            s@.len() <= MAX_EXPRESSION_LENGTH,
            sound(s@, unrepresentable, old(self)@),
        ensures
            agrees(r, final(self)@, scan(s@, unrepresentable, old(self)@)),
    {
        loop
            invariant
                scan(s@, unrepresentable, self@) == scan(s@, unrepresentable, old(self)@),
                self@.position <= s@.len(),
                s@.len() <= MAX_EXPRESSION_LENGTH,
                sound(s@, unrepresentable, self@),
            decreases s@.len() - self@.position,
        {
            let p = spaces_end(s, self.position);
            if p >= s.len() {
                self.position = p;
                return Ok(());
            }
            proof {
                lemma_token(s@, unrepresentable, self@, p as int);
            }
            match self.token(s, unrepresentable, p) {
                Err(e) => return Err(e),
                Ok(()) => {},
            }
        }
    }

    fn drain(&mut self) -> (r: Result<(), ParseError>)
        ensures
            match drain(old(self)@) {
                Ok(code) => r is Ok && final(self)@.code == code,
                Err(e) => r == Err::<(), ParseError>(e),
            },
    {
        loop
            invariant
                drain(self@) == drain(old(self)@),
            decreases self@.operators.len(),
        {
            let n = self.operators.len();
            if n == 0 {
                return Ok(());
            }
            let top = self.operators[n - 1];
            if let Operator::Parenthesis(_) = top {
                return Err(ParseError::MissingClosingParenthesis);
            }
            if self.code.len() >= MAX_BYTECODE_LENGTH {
                return Err(ParseError::BytecodeTooLarge);
            }
            self.pop();
            self.code.push(instruction_for(top));
        }
    }
}

/// Values consumed by one instruction.
pub fn operand_count(instruction: Instruction) -> (n: usize)
    ensures
        n == instruction.operands(),
{
    match instruction {
        Instruction::Number { .. } | Instruction::Euler | Instruction::X | Instruction::Y => 0,
        Instruction::Add | Instruction::Subtract | Instruction::Multiply | Instruction::Divide
        | Instruction::Power | Instruction::Min | Instruction::Max | Instruction::Log => 2,
        _ => 1,
    }
}

/// Checks that `code` runs on the fixed evaluation stack: every instruction
/// finds its operands (`MissingOperand`), the stack never exceeds
/// `MAX_EVALUATION_DEPTH` (`EvaluationStackOverflow`), and exactly one value
/// remains (`MissingOperator`).
pub fn validate_bytecode(code: &[Instruction]) -> (r: Result<(), ParseError>)
    ensures
        r == check_stack(code@, 0, 0),
{
    let mut depth: usize = 0;
    let mut position: usize = 0;
    while position < code.len()
        invariant
            position <= code@.len(),
            depth <= MAX_EVALUATION_DEPTH,
            check_stack(code@, position as int, depth as int) == check_stack(code@, 0, 0),
        decreases code@.len() - position,
    {
        let needed = operand_count(code[position]);
        if depth < needed {
            return Err(ParseError::MissingOperand);
        }
        let next = depth - needed + 1;
        if next > MAX_EVALUATION_DEPTH {
            return Err(ParseError::EvaluationStackOverflow);
        }
        depth = next;
        position = position + 1;
    }
    if depth == 1 {
        Ok(())
    } else {
        Err(ParseError::MissingOperator)
    }
}

/// Accepted postfix bytecode for one expression.
pub struct CompiledExpression {
    code: Vec<Instruction>,
}

impl View for CompiledExpression {
    type V = Seq<Instruction>;

    closed spec fn view(&self) -> Seq<Instruction> {
        self.code@
    }
}

impl CompiledExpression {
    /// Compiles `source`. `unrepresentable` is the start of the first
    /// literal (in reading order, see [`literal_spans`]) whose value is not
    /// representable, if there is one.
    pub fn compile(source: &[u8], unrepresentable: Option<usize>) -> (r: Result<
        CompiledExpression,
        ParseError,
    >)
        ensures
            match compiled(source@, unrepresentable) {
                Ok(code) => r matches Ok(program) && program@ == code,
                Err(e) => r matches Err(found) && found == e,
            },
    {
        if source.len() > MAX_EXPRESSION_LENGTH {
            return Err(ParseError::ExpressionTooLong);
        }
        let mut parser = ParserState::new();
        match parser.scan(source, unrepresentable) {
            Err(e) => return Err(e),
            Ok(()) => {},
        }
        if !parser.saw_value {
            return Err(ParseError::EmptyExpression);
        }
        if parser.expects_operand {
            return Err(ParseError::MissingOperand);
        }
        match parser.drain() {
            Err(e) => return Err(e),
            Ok(()) => {},
        }
        match validate_bytecode(parser.code.as_slice()) {
            Err(e) => Err(e),
            Ok(()) => Ok(CompiledExpression { code: parser.code }),
        }
    }

    /// Number of instructions.
    pub fn len(&self) -> (n: usize)
        ensures
            n == self@.len(),
    {
        self.code.len()
    }

    /// The instruction at `index`.
    pub fn instruction(&self, index: usize) -> (instruction: Instruction)
        requires
            index < self@.len(),
        ensures
            instruction == self@[index as int],
    {
        self.code[index]
    }
}

/// Spans `(start, end)` of the literals of `source` in reading order, up to
/// the first malformed literal.
pub fn literal_spans(source: &[u8]) -> (spans: Vec<(usize, usize)>)
    ensures
        spans@ == literal_spans_from(source@, 0),
{
    let mut spans: Vec<(usize, usize)> = Vec::new();
    let mut i: usize = 0;
    while i < source.len()
        invariant
            i <= source@.len(),
            spans@ + literal_spans_from(source@, i as int) == literal_spans_from(source@, 0),
        decreases source@.len() - i,
    {
        let b = source[i];
        if (48 <= b && b <= 57) || b == 46 {
            match scan_literal(source, i) {
                Some(e) => {
                    proof {
                        assert(literal_spans_from(source@, i as int) == seq![(i, e)]
                            + literal_spans_from(source@, e as int));
                        assert(spans@.push((i, e)) + literal_spans_from(source@, e as int) == spans@
                            + literal_spans_from(source@, i as int));
                    }
                    spans.push((i, e));
                    i = e;
                },
                None => {
                    proof {
                        assert(spans@ == literal_spans_from(source@, 0));
                    }
                    return spans;
                },
            }
        } else {
            i = i + 1;
        }
    }
    proof {
        assert(spans@ + Seq::<(usize, usize)>::empty() == spans@);
    }
    spans
}

/// Compiled bytecode is well formed: it fits the fixed capacity, runs on the
/// fixed evaluation stack leaving exactly one value, and each of its
/// literals spells a literal of the source that is not the unrepresentable
/// one.
pub proof fn compiled_bytecode_is_well_formed(s: Seq<u8>, unrepresentable: Option<usize>)
    ensures
        compiled(s, unrepresentable) matches Ok(code) ==> {
            &&& code.len() <= MAX_BYTECODE_LENGTH
            &&& check_stack(code, 0, 0) is Ok
            &&& numbers_spelled(s, unrepresentable, code)
        },
{
    if s.len() <= MAX_EXPRESSION_LENGTH {
        lemma_scan(s, unrepresentable, ParseModel::initial());
        if let Ok(m) = scan(s, unrepresentable, ParseModel::initial()) {
            lemma_drain(s, unrepresentable, m);
        }
    }
}

/// Whether an operator can be pending below an incoming binary one (it is
/// neither a parenthesis nor a call).
pub open spec fn is_pending_operation(operator: Operator) -> bool {
    !(operator is Parenthesis) && !(operator is Call)
}

/// A parse state that can take one more binary operator: it has just read
/// an operand, and both the operator stack and the bytecode have room.
pub open spec fn ready_for_binary(m: ParseModel) -> bool {
    &&& !m.expects_operand
    &&& m.operators.len() < MAX_OPERATOR_DEPTH
    &&& m.code.len() < MAX_BYTECODE_LENGTH
}

/// The state after an incoming binary operator waits above the pending
/// ones, nothing being emitted yet.
pub open spec fn waits(m: ParseModel, operator: Operator) -> ParseModel {
    ParseModel { operators: m.operators.push(operator), expects_operand: true, ..m }
}

proof fn lemma_reduce_keeps_code(m: ParseModel, operator: Operator)
    ensures
        m.reduce_for(operator) matches Ok(r) ==> r.code.len() >= m.code.len() && r.code.subrange(
            0,
            m.code.len() as int,
        ) == m.code,
    decreases m.operators.len(),
{
    if m.operators.len() > 0 {
        let top = m.operators.last();
        let rest = m.popped();
        let next = ParseModel { code: rest.code.push(spec_instruction_for(top)), ..rest };
        lemma_reduce_keeps_code(next, operator);
        if let Ok(r) = next.reduce_for(operator) {
            assert(r.code.subrange(0, m.code.len() as int) =~= r.code.subrange(
                0,
                next.code.len() as int,
            ).subrange(0, m.code.len() as int));
            assert(next.code.subrange(0, m.code.len() as int) =~= m.code);
        }
    }
}

/// `^` groups to the right and binds inside a unary minus: when `^` follows
/// an operand whose pending operator is `^` or a unary minus, that operator
/// stays pending, so `2^3^2` is `2^(3^2)` and `-2^2` is `-(2^2)`.
pub proof fn power_groups_right_and_inside_negation(m: ParseModel)
    requires
        ready_for_binary(m),
        m.operators.len() > 0,
        m.operators.last() == Operator::Power || m.operators.last() == Operator::Negate,
    ensures
        m.binary(Operator::Power) == Ok::<ParseModel, ParseError>(waits(m, Operator::Power)),
{
}

/// Operators of lower precedence wait: a pending `+` or `-` stays pending
/// when `*`, `/` or `^` follows, and a pending `*` or `/` stays pending when
/// `^` follows, so `1+2*3` is `1+(2*3)` and `2*3^2` is `2*(3^2)`.
pub proof fn tighter_operators_go_first(m: ParseModel, incoming: Operator)
    requires
        ready_for_binary(m),
        m.operators.len() > 0,
        is_pending_operation(m.operators.last()),
        spec_precedence(m.operators.last()) < spec_precedence(incoming),
        incoming == Operator::Add || incoming == Operator::Subtract || incoming
            == Operator::Multiply || incoming == Operator::Divide || incoming == Operator::Power,
    ensures
        m.binary(incoming) == Ok::<ParseModel, ParseError>(waits(m, incoming)),
{
}

/// Operators of higher or equal precedence are completed first by a `+`,
/// `-`, `*` or `/` that follows, which therefore group to the left: the
/// pending operator is the next instruction emitted, so `8-2-1` is
/// `(8-2)-1`, `8/2/2` is `(8/2)/2`, and `2*3+1` is `(2*3)+1`.
pub proof fn left_operators_group_left(m: ParseModel, incoming: Operator)
    requires
        ready_for_binary(m),
        m.operators.len() > 0,
        is_pending_operation(m.operators.last()),
        spec_precedence(m.operators.last()) >= spec_precedence(incoming),
        incoming == Operator::Add || incoming == Operator::Subtract || incoming
            == Operator::Multiply || incoming == Operator::Divide,
    ensures
        m.binary(incoming) is Ok ==> ({
            let r = m.binary(incoming)->Ok_0;
            &&& r.code.len() > m.code.len()
            &&& r.code[m.code.len() as int] == spec_instruction_for(m.operators.last())
            &&& r.operators.last() == incoming
        }),
{
    let top = m.operators.last();
    let rest = m.popped();
    let next = ParseModel { code: rest.code.push(spec_instruction_for(top)), ..rest };
    lemma_reduce_keeps_code(next, incoming);
    if let Ok(r) = next.reduce_for(incoming) {
        assert(r.code.subrange(0, next.code.len() as int)[m.code.len() as int] == next.code[m.code.len() as int]);
    }
}


/// The instruction that a binary operator symbol of the source stands for:
/// `+` adds, `-` subtracts, `*` multiplies, `/` divides and `^` raises to a
/// power.
pub open spec fn symbol_instruction(symbol: u8) -> Instruction {
    if symbol == 43 {
        Instruction::Add
    } else if symbol == 45 {
        Instruction::Subtract
    } else if symbol == 42 {
        Instruction::Multiply
    } else if symbol == 47 {
        Instruction::Divide
    } else {
        Instruction::Power
    }
}

/// The binary arithmetic symbols `+`, `-`, `*`, `/` and `^`.
pub open spec fn is_binary_symbol(symbol: u8) -> bool {
    symbol == 43 || symbol == 45 || symbol == 42 || symbol == 47 || symbol == 94
}

/// A binary symbol read after an operand, with nothing pending, is completed
/// by the end of the source into the instruction of that very symbol, after
/// its right operand: an operand, the symbol and another operand compile to
/// the two operands followed by the symbol's own operation, so `x / y`
/// divides and never multiplies.
pub proof fn binary_symbol_emits_its_operation(
    s: Seq<u8>,
    m: ParseModel,
    p: int,
    operand: Instruction,
)
    requires
        ready_for_binary(m),
        m.operators.len() == 0,
        m.code.len() + 2 < MAX_BYTECODE_LENGTH,
        0 <= p < s.len(),
        is_binary_symbol(s[p]),
        operand.operands() == 0,
    ensures
        symbol_token(s, m, p) matches Ok(m1) && m1.emit(operand) matches Ok(m2) && drain(
            m2.valued(),
        ) == Ok::<Seq<Instruction>, ParseError>(m.code.push(operand).push(symbol_instruction(s[p]))),
{
    reveal_with_fuel(drain, 2);
}


/// The one-letter names of values: `x`, `y` and `e`.
pub open spec fn is_value_letter(letter: u8) -> bool {
    letter == 120 || letter == 121 || letter == 101
}

/// The value a one-letter name stands for: `x`, `y`, or Euler's number `e`.
pub open spec fn letter_value(letter: u8) -> Instruction {
    if letter == 120 {
        Instruction::X
    } else if letter == 121 {
        Instruction::Y
    } else {
        Instruction::Euler
    }
}

/// A two-operand expression of one-letter values compiles to postfix: the
/// left value, the right value, then the operation of the symbol between
/// them; `x/y` is `[X, Y, Divide]` and `y^x` is `[Y, X, Power]`.
pub proof fn binary_expression_compiles_to_postfix(left: u8, symbol: u8, right: u8)
    requires
        is_value_letter(left),
        is_binary_symbol(symbol),
        is_value_letter(right),
    ensures
        compiled(seq![left, symbol, right], None) == Ok::<Seq<Instruction>, ParseError>(
            seq![letter_value(left), letter_value(right), symbol_instruction(symbol)],
        ),
{
    let s = seq![left, symbol, right];
    let m0 = ParseModel::initial();
    reveal_with_fuel(letter_run_end, 2);
    reveal_with_fuel(skip_spaces, 2);
    assert(skip_spaces(s, 0) == 0);
    assert(letter_run_end(s, 0) == 1);
    let m1 = ParseModel { code: seq![letter_value(left)], ..m0 }.valued().at(1);
    assert(token(s, None, m0, 0) == Ok::<ParseModel, ParseError>(m1));
    assert(skip_spaces(s, 1) == 1);
    binary_symbol_emits_its_operation(s, m1, 1, letter_value(right));
    let m2 = symbol_token(s, m1, 1)->Ok_0;
    assert(m2.position == 2);
    assert(token(s, None, m1, 1) == Ok::<ParseModel, ParseError>(m2));
    assert(skip_spaces(s, 2) == 2);
    assert(letter_run_end(s, 2) == 3);
    let m3 = m2.emit(letter_value(right))->Ok_0.valued().at(3);
    assert(token(s, None, m2, 2) == Ok::<ParseModel, ParseError>(m3));
    assert(skip_spaces(s, 3) == 3);
    assert(scan(s, None, m3) == Ok::<ParseModel, ParseError>(m3.at(3)));
    assert(scan(s, None, m2) == Ok::<ParseModel, ParseError>(m3.at(3)));
    assert(scan(s, None, m1) == Ok::<ParseModel, ParseError>(m3.at(3)));
    assert(scan(s, None, m0) == Ok::<ParseModel, ParseError>(m3.at(3)));
    let code = seq![letter_value(left), letter_value(right), symbol_instruction(symbol)];
    assert(m1.code.push(letter_value(right)).push(symbol_instruction(symbol)) == code);
    reveal_with_fuel(drain, 2);
    assert(drain(m3.at(3)) == Ok::<Seq<Instruction>, ParseError>(code));
    reveal_with_fuel(check_stack, 4);
    assert(check_stack(code, 0, 0) is Ok);
}


/// The operation named by a one-argument function name: `sin`, `cos`,
/// `tan`, `sqrt`, `abs`, `floor`, `ceil`, `round`, `exp`, `ln`, `asin`,
/// `acos` or `atan`.
pub open spec fn unary_function_instruction(name: Seq<u8>) -> Option<Instruction> {
    if name == seq![115u8, 105, 110] {
        Some(Instruction::Sin)
    } else if name == seq![99u8, 111, 115] {
        Some(Instruction::Cos)
    } else if name == seq![116u8, 97, 110] {
        Some(Instruction::Tan)
    } else if name == seq![115u8, 113, 114, 116] {
        Some(Instruction::Sqrt)
    } else if name == seq![97u8, 98, 115] {
        Some(Instruction::Abs)
    } else if name == seq![102u8, 108, 111, 111, 114] {
        Some(Instruction::Floor)
    } else if name == seq![99u8, 101, 105, 108] {
        Some(Instruction::Ceil)
    } else if name == seq![114u8, 111, 117, 110, 100] {
        Some(Instruction::Round)
    } else if name == seq![101u8, 120, 112] {
        Some(Instruction::Exp)
    } else if name == seq![108u8, 110] {
        Some(Instruction::Ln)
    } else if name == seq![97u8, 115, 105, 110] {
        Some(Instruction::Asin)
    } else if name == seq![97u8, 99, 111, 115] {
        Some(Instruction::Acos)
    } else if name == seq![97u8, 116, 97, 110] {
        Some(Instruction::Atan)
    } else {
        None
    }
}

proof fn lemma_letter_run(s: Seq<u8>, i: int, j: int)
    requires
        0 <= i <= j <= s.len(),
        forall|k: int| i <= k < j ==> is_letter(#[trigger] s[k]),
        j == s.len() || !is_letter(s[j]),
    ensures
        letter_run_end(s, i) == j,
    decreases j - i,
{
    if i < j {
        lemma_letter_run(s, i + 1, j);
    }
}

/// A one-argument function name at the start of `s` is read as a function
/// of one argument whose instruction is the one the name stands for.
proof fn lemma_unary_name(name: Seq<u8>, s: Seq<u8>)
    requires
        unary_function_instruction(name) is Some,
        s.len() > name.len(),
        s.subrange(0, name.len() as int) == name,
    ensures
        2 <= name.len() <= 5,
        forall|k: int| 0 <= k < name.len() ==> is_letter(#[trigger] s[k]),
        function_named(s, 0, name.len() as int) is Some,
        function_named(s, 0, name.len() as int)->Some_0.spec_instruction()
            == unary_function_instruction(name)->Some_0,
        function_named(s, 0, name.len() as int)->Some_0.spec_arity() == 1,
{
    let n = name.len() as int;
    assert forall|k: int| 0 <= k < n implies s[k] == name[k] by {
        assert(s.subrange(0, n)[k] == s[k]);
    }
    assert(2 <= n <= 5);
    assert forall|k: int| 0 <= k < n implies is_letter(#[trigger] s[k]) by {
        assert(s[k] == name[k]);
    }
    assert(s[0] == name[0] && s[1] == name[1]);
    if n >= 3 {
        assert(s[2] == name[2]);
    }
    if n >= 4 {
        assert(s[3] == name[3]);
    }
    if n >= 5 {
        assert(s[4] == name[4]);
    }
}

/// A one-argument function applied to a one-letter value compiles to the
/// value followed by the function's own operation: `sin(x)` is
/// `[X, Sin]`, `sqrt(y)` is `[Y, Sqrt]`, and so on for every name.
pub proof fn unary_call_compiles_to_its_function(name: Seq<u8>, letter: u8)
    requires
        unary_function_instruction(name) is Some,
        is_value_letter(letter),
    ensures
        compiled(name + seq![40u8, letter, 41u8], None) == Ok::<Seq<Instruction>, ParseError>(
            seq![letter_value(letter), unary_function_instruction(name)->Some_0],
        ),
{
    let s = name + seq![40u8, letter, 41u8];
    let n = name.len() as int;
    assert(s.subrange(0, n) =~= name);
    lemma_unary_name(name, s);
    assert(s[n] == 40 && s[n + 1] == letter && s[n + 2] == 41);
    lemma_letter_run(s, 0, n);
    lemma_letter_run(s, n + 1, n + 2);
    let f = function_named(s, 0, n)->Some_0;
    reveal_with_fuel(skip_spaces, 2);
    let m0 = ParseModel::initial();
    assert(skip_spaces(s, 0) == 0);
    assert(skip_spaces(s, n) == n);
    let m1 = ParseModel { operators: seq![Operator::Call(f), Operator::Parenthesis(0)], ..m0 }.at(
        n + 1,
    );
    assert(is_letter(s[0]));
    assert(value_named(s, 0, n) is None);
    assert(m0.operators.push(Operator::Call(f)).push(Operator::Parenthesis(0)) =~= m1.operators);
    assert(word_token(s, m0, 0) == Ok::<ParseModel, ParseError>(m1));
    assert(token(s, None, m0, 0) == Ok::<ParseModel, ParseError>(m1));
    assert(scan(s, None, m0) == scan(s, None, m1));
    assert(skip_spaces(s, n + 1) == n + 1);
    let m2 = ParseModel { code: seq![letter_value(letter)], ..m1 }.valued().at(n + 2);
    assert(token(s, None, m1, n + 1) == Ok::<ParseModel, ParseError>(m2));
    assert(scan(s, None, m1) == scan(s, None, m2));
    assert(skip_spaces(s, n + 2) == n + 2);
    let m3 = ParseModel {
        code: seq![letter_value(letter), f.spec_instruction()],
        operators: Seq::empty(),
        expects_operand: false,
        ..m2
    }.at(n + 3);
    let closing = m2.at(n + 3);
    assert(closing.unwind() == Ok::<ParseModel, ParseError>(closing));
    assert(closing.operators.last() == Operator::Parenthesis(0));
    assert(closing.popped().operators.last() == Operator::Call(f));
    assert(closing.popped().popped().operators =~= Seq::<Operator>::empty());
    assert(closing.code.push(f.spec_instruction()) =~= m3.code);
    assert(closing.close() == Ok::<ParseModel, ParseError>(m3));
    assert(symbol_token(s, m2, n + 2) == Ok::<ParseModel, ParseError>(m3));
    assert(token(s, None, m2, n + 2) == Ok::<ParseModel, ParseError>(m3));
    assert(skip_spaces(s, n + 3) == n + 3);
    assert(scan(s, None, m3) == Ok::<ParseModel, ParseError>(m3.at(n + 3)));
    assert(scan(s, None, m2) == Ok::<ParseModel, ParseError>(m3.at(n + 3)));
    let code = seq![letter_value(letter), unary_function_instruction(name)->Some_0];
    assert(drain(m3.at(n + 3)) == Ok::<Seq<Instruction>, ParseError>(code));
    reveal_with_fuel(check_stack, 3);
    assert(check_stack(code, 0, 0) is Ok);
}

} // verus!
