//! Syntax errors.
use vstd::prelude::*;

use crate::source::PositionRange;

verus! {

/// The class of a syntax error.
#[derive(Debug, Clone, Copy, PartialEq, Eq, Structural)]
pub enum ErrorKind {
    /// A token of another class was required, e.g. an identifier where a number stands.
    IllegalToken,
    /// A specific punctuation symbol was required and another token stands there.
    IllegalSymbol,
    /// One of several punctuation symbols was required and none stands there.
    ExpectedSymbol,
    /// An expression was required and none can start here.
    ExpectedExpression,
}

/// What the grammar required where a syntax error was found.
#[derive(Debug, Clone, Copy, PartialEq, Eq, Structural)]
pub enum Expected {
    Identifier,
    DataType,
    OpeningParenthesis,
    ClosingParenthesis,
    Colon,
    Equal,
    CommaOrClosingParenthesis,
    Expression,
    BinaryOperator,
}

/// A syntax error: its class, what was required, and where.
#[derive(Debug, Clone, Copy, PartialEq, Eq, Structural)]
pub struct ParseError {
    pub kind: ErrorKind,
    pub expected: Expected,
    pub position: PositionRange,
}

/// The text that describes what was required.
pub open spec fn expected_text(expected: Expected) -> Seq<char> {
    match expected {
        Expected::Identifier => "expected an identifier"@,
        Expected::DataType => "expected a data type"@,
        Expected::OpeningParenthesis => "expected `(`"@,
        Expected::ClosingParenthesis => "expected `)`"@,
        Expected::Colon => "expected `:`"@,
        Expected::Equal => "expected `=`"@,
        Expected::CommaOrClosingParenthesis => "expected `,` or `)`"@,
        Expected::Expression => "expected an expression"@,
        Expected::BinaryOperator => "expected a binary operator"@,
    }
}

impl ParseError {
    /// A human-readable message for this error.
    pub fn message(&self) -> (r: String)
        ensures
            r@ == expected_text(self.expected),
    {
        let text = match self.expected {
            Expected::Identifier => "expected an identifier",
            Expected::DataType => "expected a data type",
            Expected::OpeningParenthesis => "expected `(`",
            Expected::ClosingParenthesis => "expected `)`",
            Expected::Colon => "expected `:`",
            Expected::Equal => "expected `=`",
            Expected::CommaOrClosingParenthesis => "expected `,` or `)`",
            Expected::Expression => "expected an expression",
            Expected::BinaryOperator => "expected a binary operator",
        };
        String::from_str(text)
    }
}

} // verus!
