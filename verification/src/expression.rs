//! Reading a line as an expression of two operands and an operator, and the
//! errors that a line can earn.

use vstd::prelude::*;
use crate::number::{is_numeric, is_operand, lemma_operand_is_word};
use crate::operator::{lemma_operator_symbol, operator_of, Operator};
use crate::text::{
    is_word, lemma_tokens_after_space, lemma_tokens_after_word, lemma_tokens_of_trimmed, texts, tokenize, tokens,
    trimmed,
};

verus! {

/// Why a line could not be evaluated.
#[derive(Clone, Debug, PartialEq, Eq)]
pub enum EvaluationError {
    /// The line does not hold exactly three tokens.
    MalformedInput,
    /// The token, first or third of the line, is no number.
    InvalidOperand(String),
    /// The token, second of the line, is none of the four operators.
    UnknownOperator(String),
    /// A division whose second operand is zero.
    DivisionByZero,
}

/// An error with its token as a sequence of characters.
pub enum Failure {
    MalformedInput,
    InvalidOperand(Seq<char>),
    UnknownOperator(Seq<char>),
    DivisionByZero,
}

impl View for EvaluationError {
    type V = Failure;

    open spec fn view(&self) -> Failure {
        match self {
            EvaluationError::MalformedInput => Failure::MalformedInput,
            EvaluationError::InvalidOperand(t) => Failure::InvalidOperand(t@),
            EvaluationError::UnknownOperator(t) => Failure::UnknownOperator(t@),
            EvaluationError::DivisionByZero => Failure::DivisionByZero,
        }
    }
}

/// A line that was read: the operands as they were written, both numbers by
/// the grammar, and the operator between them.
#[derive(Clone, Debug, PartialEq, Eq)]
pub struct Expression {
    pub left: String,
    pub operator: Operator,
    pub right: String,
}

/// An expression with its operands as sequences of characters.
pub struct Shape {
    pub left: Seq<char>,
    pub operator: Operator,
    pub right: Seq<char>,
}

impl View for Expression {
    type V = Shape;

    open spec fn view(&self) -> Shape {
        Shape { left: self.left@, operator: self.operator, right: self.right@ }
    }
}

/// What a line reads as. A line of other than three tokens is malformed;
/// then the first operand is held against the grammar, then the second, and
/// the operator last.
pub open spec fn reading(line: Seq<char>) -> Result<Shape, Failure> {
    let t = tokens(line);
    if t.len() != 3 {
        Err(Failure::MalformedInput)
    } else if !is_operand(t[0]) {
        Err(Failure::InvalidOperand(t[0]))
    } else if !is_operand(t[2]) {
        Err(Failure::InvalidOperand(t[2]))
    } else {
        match operator_of(t[1]) {
            None => Err(Failure::UnknownOperator(t[1])),
            Some(op) => Ok(Shape { left: t[0], operator: op, right: t[2] }),
        }
    }
}

/// The result of reading a line, by its views.
pub open spec fn outcome(r: Result<Expression, EvaluationError>) -> Result<Shape, Failure> {
    match r {
        Ok(e) => Ok(e@),
        Err(e) => Err(e@),
    }
}

/// Reads a line as an expression.
pub fn parse_expression(line: &str) -> (r: Result<Expression, EvaluationError>)
    ensures
        outcome(r) == reading(line@),
{
    let parts: Vec<String> = tokenize(line);
    if parts.len() != 3 {
        return Err(EvaluationError::MalformedInput);
    }
    if !is_numeric(parts[0].as_str()) {
        return Err(EvaluationError::InvalidOperand(parts[0].clone()));
    }
    if !is_numeric(parts[2].as_str()) {
        return Err(EvaluationError::InvalidOperand(parts[2].clone()));
    }
    match Operator::parse(parts[1].as_str()) {
        None => Err(EvaluationError::UnknownOperator(parts[1].clone())),
        Some(op) => Ok(Expression { left: parts[0].clone(), operator: op, right: parts[2].clone() }),
    }
}

/// Whether `bits`, the binary64 encoding of a number, stands for zero, of
/// either sign: every bit but the sign bit is clear.
pub open spec fn encodes_zero(bits: u64) -> bool {
    bits == 0 || bits == 0x8000_0000_0000_0000
}

/// Whether `operator` may be applied with the second operand whose binary64
/// encoding is `divisor_bits`: anything but a division by zero.
pub open spec fn computable(operator: Operator, divisor_bits: u64) -> bool {
    !(operator == Operator::Divide && encodes_zero(divisor_bits))
}

/// Guards a division: refuses the one by zero and lets every other
/// operation pass.
pub fn check_divisor(operator: Operator, divisor_bits: u64) -> (r: Result<(), EvaluationError>)
    ensures
        r is Ok <==> computable(operator, divisor_bits),
        r is Err ==> r->Err_0@ == Failure::DivisionByZero,
{
    match operator {
        Operator::Divide => {
            if divisor_bits == 0 || divisor_bits == 0x8000_0000_0000_0000 {
                Err(EvaluationError::DivisionByZero)
            } else {
                Ok(())
            }
        },
        _ => Ok(()),
    }
}

impl EvaluationError {
    /// What the error says to the user.
    pub open spec fn spec_message(self) -> Seq<char> {
        match self {
            EvaluationError::MalformedInput => "Please enter in format: number operator number (e.g., '5 + 3')"@,
            EvaluationError::InvalidOperand(t) => "'"@ + t@ + "' is not a valid number"@,
            EvaluationError::UnknownOperator(t) => "Unknown operator '"@ + t@ + "'. Use +, -, *, or /"@,
            EvaluationError::DivisionByZero => "Cannot divide by zero!"@,
        }
    }

    /// What the error says to the user.
    pub fn message(&self) -> (m: String)
        ensures
            m@ == self.spec_message(),
    {
        match self {
            EvaluationError::MalformedInput => String::from_str(
                "Please enter in format: number operator number (e.g., '5 + 3')",
            ),
            EvaluationError::InvalidOperand(t) => {
                let mut m = String::from_str("'");
                m.append(t.as_str());
                m.append("' is not a valid number");
                m
            },
            EvaluationError::UnknownOperator(t) => {
                let mut m = String::from_str("Unknown operator '");
                m.append(t.as_str());
                m.append("'. Use +, -, *, or /");
                m
            },
            EvaluationError::DivisionByZero => String::from_str("Cannot divide by zero!"),
        }
    }
}

/// The line that holds `left`, a space, the symbol of `operator`, a space
/// and `right`.
pub open spec fn written(left: Seq<char>, operator: Operator, right: Seq<char>) -> Seq<char> {
    left + seq![' ', operator.spec_symbol(), ' '] + right
}

/// A line written as two operands with an operator between them, one space
/// on either side of it, reads as that expression.
pub proof fn lemma_written_line_reads(left: Seq<char>, operator: Operator, right: Seq<char>)
    requires
        is_operand(left),
        is_operand(right),
    ensures
        reading(written(left, operator, right)) == Ok::<Shape, Failure>(
            Shape { left: left, operator: operator, right: right },
        ),
{
    let symbol = seq![operator.spec_symbol()];
    let none = Seq::<char>::empty();
    let after_symbol = seq![' '] + right;
    let after_left = seq![' '] + (symbol + after_symbol);
    lemma_operand_is_word(left);
    lemma_operand_is_word(right);
    lemma_operator_symbol(operator, symbol);
    assert(is_word(symbol));
    lemma_tokens_after_word(right, none);
    lemma_tokens_after_space(' ', right);
    lemma_tokens_after_word(symbol, after_symbol);
    lemma_tokens_after_space(' ', symbol + after_symbol);
    lemma_tokens_after_word(left, after_left);
    assert(written(left, operator, right) =~= left + after_left);
}

/// The separators at the ends of a line do not change what it reads as.
pub proof fn lemma_reading_of_trimmed(line: Seq<char>)
    ensures
        reading(trimmed(line)) == reading(line),
{
    lemma_tokens_of_trimmed(line);
}

} // verus!
