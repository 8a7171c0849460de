//! The four operators.

use vstd::prelude::*;

verus! {

/// An arithmetic operator of the calculator.
#[derive(Clone, Copy, Debug, PartialEq, Eq, Structural)]
pub enum Operator {
    Add,
    Subtract,
    Multiply,
    Divide,
}

/// The operator that a token spells, if it spells one: the token is exactly
/// one of `+`, `-`, `*`, `/`.
pub open spec fn operator_of(token: Seq<char>) -> Option<Operator> {
    if token == seq!['+'] {
        Some(Operator::Add)
    } else if token == seq!['-'] {
        Some(Operator::Subtract)
    } else if token == seq!['*'] {
        Some(Operator::Multiply)
    } else if token == seq!['/'] {
        Some(Operator::Divide)
    } else {
        None
    }
}

impl Operator {
    /// The character that spells the operator.
    pub open spec fn spec_symbol(self) -> char {
        match self {
            Operator::Add => '+',
            Operator::Subtract => '-',
            Operator::Multiply => '*',
            Operator::Divide => '/',
        }
    }

    /// The character that spells the operator.
    pub fn symbol(self) -> (c: char)
        ensures
            c == self.spec_symbol(),
    {
        match self {
            Operator::Add => '+',
            Operator::Subtract => '-',
            Operator::Multiply => '*',
            Operator::Divide => '/',
        }
    }

    /// Reads an operator from a token.
    pub fn parse(token: &str) -> (r: Option<Operator>)
        ensures
            r == operator_of(token@),
    {
        if token.unicode_len() != 1 {
            return None;
        }
        let c: char = token.get_char(0);
        assert(token@ =~= seq![c]);
        if c == '+' {
            Some(Operator::Add)
        } else if c == '-' {
            Some(Operator::Subtract)
        } else if c == '*' {
            Some(Operator::Multiply)
        } else if c == '/' {
            Some(Operator::Divide)
        } else {
            None
        }
    }
}

/// Every operator is read back from its own symbol, and a token that spells
/// an operator is that operator's symbol and nothing else.
pub proof fn lemma_operator_symbol(op: Operator, token: Seq<char>)
    ensures
        operator_of(seq![op.spec_symbol()]) == Some(op),
        operator_of(token) == Some(op) <==> token == seq![op.spec_symbol()],
{
    assert(seq!['+'][0] == '+' && seq!['-'][0] == '-' && seq!['*'][0] == '*' && seq!['/'][0] == '/');
}

} // verus!
