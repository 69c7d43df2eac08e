//! Lexical tokens, the parser's input.
use vstd::prelude::*;

use crate::ast::BinaryOperator;
use crate::source::{Position, PositionRange};

verus! {

/// The kind of a token, with the data it carries.
#[derive(Debug, Clone, PartialEq)]
pub enum TokenKind {
    /// Keyword `def`: a function definition follows.
    FunctionDefinition,
    /// Keyword `extern`: a function prototype without body follows.
    Extern,
    /// Keyword `ptr`: a pointer type.
    Pointer,
    /// A function, variable or type name.
    Identifier(String),
    /// A numeric literal, held as the bit pattern of its 64-bit IEEE-754 value.
    Number(u64),
    /// `(`
    OpeningParentheses,
    /// `)`
    ClosingParentheses,
    /// `:`
    Colon,
    /// `,`
    Comma,
    /// `=`
    Equal,
    /// End of a statement.
    EndOfStatement,
    /// `+`
    Plus,
    /// `-`
    Minus,
    /// `*`
    Star,
    /// `/`
    Slash,
    /// `<`
    Less,
    /// `>`
    Greater,
}

/// The kind of a token, under the name the lexer gives it.
pub type TokenType = TokenKind;

/// A token together with the source range it was read from.
#[derive(Debug, Clone, PartialEq)]
pub struct Token {
    pub kind: TokenKind,
    pub position: PositionRange,
}

/// A single character of source text at a position.
#[derive(Debug, Clone, Copy, PartialEq, Eq, Structural)]
pub struct Symbol {
    pub data: char,
    pub position: Position,
}

/// The kind of the token that a one-character symbol stands for, if any.
pub open spec fn symbol_kind(c: char) -> Option<TokenKind> {
    if c == '(' {
        Some(TokenKind::OpeningParentheses)
    } else if c == ')' {
        Some(TokenKind::ClosingParentheses)
    } else if c == ':' {
        Some(TokenKind::Colon)
    } else if c == ',' {
        Some(TokenKind::Comma)
    } else if c == '=' {
        Some(TokenKind::Equal)
    } else if c == '+' {
        Some(TokenKind::Plus)
    } else if c == '-' {
        Some(TokenKind::Minus)
    } else if c == '*' {
        Some(TokenKind::Star)
    } else if c == '/' {
        Some(TokenKind::Slash)
    } else if c == '<' {
        Some(TokenKind::Less)
    } else if c == '>' {
        Some(TokenKind::Greater)
    } else {
        None
    }
}

/// The binary operator that a token kind denotes, if any.
pub open spec fn operator_of(kind: TokenKind) -> Option<BinaryOperator> {
    match kind {
        TokenKind::Plus => Some(BinaryOperator::Add),
        TokenKind::Minus => Some(BinaryOperator::Subtract),
        TokenKind::Star => Some(BinaryOperator::Multiply),
        TokenKind::Slash => Some(BinaryOperator::Divide),
        TokenKind::Less => Some(BinaryOperator::Less),
        TokenKind::Greater => Some(BinaryOperator::Greater),
        _ => None,
    }
}

impl TokenKind {
    /// The kind of the one-character symbol `c`, or `None` if `c` is not a symbol.
    pub fn new(c: char) -> (r: Option<TokenKind>)
        ensures
            r == symbol_kind(c),
    {
        match c {
            '(' => Some(TokenKind::OpeningParentheses),
            ')' => Some(TokenKind::ClosingParentheses),
            ':' => Some(TokenKind::Colon),
            ',' => Some(TokenKind::Comma),
            '=' => Some(TokenKind::Equal),
            '+' => Some(TokenKind::Plus),
            '-' => Some(TokenKind::Minus),
            '*' => Some(TokenKind::Star),
            '/' => Some(TokenKind::Slash),
            '<' => Some(TokenKind::Less),
            '>' => Some(TokenKind::Greater),
            _ => None,
        }
    }

    /// The precedence of the binary operator this kind denotes, or `None` if it denotes none.
    pub fn precedence(&self) -> (r: Option<u8>)
        ensures
            r == match operator_of(*self) {
                Some(op) => Some(op.precedence_spec()),
                None => None::<u8>,
            },
    {
        match BinaryOperator::try_from(self) {
            Ok(op) => Some(op.precedence()),
            Err(_) => None,
        }
    }
}

impl Token {
    /// The token for a one-character symbol; its range starts and ends at the symbol's position.
    pub fn from_symbol(symbol: Symbol) -> (r: Option<Token>)
        ensures
            match symbol_kind(symbol.data) {
                Some(kind) => r == Some(
                    Token { kind, position: PositionRange { start: symbol.position, end: symbol.position } },
                ),
                None => r.is_none(),
            },
    {
        let kind = TokenKind::new(symbol.data)?;
        Some(Token { kind, position: PositionRange { start: symbol.position, end: symbol.position } })
    }
}

} // verus!
