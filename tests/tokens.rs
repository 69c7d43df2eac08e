use std::cmp::Ordering;

use fortytwo_lang::ast::{operator_has_too_less_precedence, BasicDataType, BinaryOperator};
use fortytwo_lang::error::{ErrorKind, Expected, ParseError};
use fortytwo_lang::source::{Position, PositionRange};
use fortytwo_lang::token::{Symbol, Token, TokenKind, TokenType};

#[test]
fn symbols_become_tokens() {
    assert_eq!(TokenKind::new('('), Some(TokenKind::OpeningParentheses));
    assert_eq!(TokenKind::new(')'), Some(TokenKind::ClosingParentheses));
    assert_eq!(TokenKind::new('+'), Some(TokenKind::Plus));
    assert_eq!(TokenKind::new('-'), Some(TokenKind::Minus));
    assert_eq!(TokenKind::new('*'), Some(TokenKind::Star));
    assert_eq!(TokenKind::new('/'), Some(TokenKind::Slash));
    assert_eq!(TokenKind::new('<'), Some(TokenKind::Less));
    assert_eq!(TokenKind::new('>'), Some(TokenKind::Greater));
    assert_eq!(TokenKind::new(','), Some(TokenKind::Comma));
    assert_eq!(TokenKind::new(':'), Some(TokenKind::Colon));
    assert_eq!(TokenKind::new('='), Some(TokenKind::Equal));
    assert_eq!(TokenKind::new('a'), None);
    assert_eq!(TokenKind::new(' '), None);
    assert_eq!(TokenType::new('+'), Some(TokenKind::Plus));
}

#[test]
fn from_symbol_spans_one_character() {
    let at = Position { line: 3, column: 9, offset: 40 };
    let token = Token::from_symbol(Symbol { data: '*', position: at }).unwrap();
    assert_eq!(token, Token { kind: TokenKind::Star, position: PositionRange { start: at, end: at } });
    assert_eq!(Token::from_symbol(Symbol { data: 'x', position: at }), None);
}

#[test]
fn token_precedence() {
    assert_eq!(TokenKind::Less.precedence(), Some(10));
    assert_eq!(TokenKind::Greater.precedence(), Some(10));
    assert_eq!(TokenKind::Plus.precedence(), Some(20));
    assert_eq!(TokenKind::Minus.precedence(), Some(20));
    assert_eq!(TokenKind::Star.precedence(), Some(30));
    assert_eq!(TokenKind::Slash.precedence(), Some(30));
    assert_eq!(TokenKind::Comma.precedence(), None);
    assert_eq!(TokenKind::Identifier("x".to_owned()).precedence(), None);
}

#[test]
fn operators_from_tokens() {
    assert_eq!(BinaryOperator::try_from(&TokenKind::Plus), Ok(BinaryOperator::Add));
    assert_eq!(BinaryOperator::try_from(&TokenKind::Minus), Ok(BinaryOperator::Subtract));
    assert_eq!(BinaryOperator::try_from(&TokenKind::Star), Ok(BinaryOperator::Multiply));
    assert_eq!(BinaryOperator::try_from(&TokenKind::Slash), Ok(BinaryOperator::Divide));
    assert_eq!(BinaryOperator::try_from(&TokenKind::Less), Ok(BinaryOperator::Less));
    assert_eq!(BinaryOperator::try_from(&TokenKind::Greater), Ok(BinaryOperator::Greater));
    let illegal = ParseError {
        kind: ErrorKind::IllegalToken,
        expected: Expected::BinaryOperator,
        position: PositionRange::default(),
    };
    assert_eq!(BinaryOperator::try_from(&TokenKind::Colon), Err(illegal));
    assert_eq!(BinaryOperator::try_from(&TokenKind::Identifier("x".to_owned())), Err(illegal));
    assert_eq!(illegal.message(), "expected a binary operator");
}

#[test]
fn operators_are_ordered_by_precedence() {
    assert_eq!(BinaryOperator::Add.partial_cmp(&BinaryOperator::Multiply), Some(Ordering::Less));
    assert_eq!(BinaryOperator::Divide.partial_cmp(&BinaryOperator::Less), Some(Ordering::Greater));
    assert_eq!(BinaryOperator::Add.partial_cmp(&BinaryOperator::Subtract), Some(Ordering::Equal));
    assert_eq!(BinaryOperator::Less.partial_cmp(&BinaryOperator::Greater), Some(Ordering::Equal));
    assert!(BinaryOperator::Multiply > BinaryOperator::Subtract);
    assert_eq!(BinaryOperator::Less.precedence(), 10);
    assert_eq!(BinaryOperator::Subtract.precedence(), 20);
    assert_eq!(BinaryOperator::Multiply.precedence(), 30);
}

#[test]
fn too_less_precedence() {
    assert!(operator_has_too_less_precedence(&BinaryOperator::Add, &Some(BinaryOperator::Multiply)));
    assert!(!operator_has_too_less_precedence(&BinaryOperator::Add, &Some(BinaryOperator::Subtract)));
    assert!(!operator_has_too_less_precedence(&BinaryOperator::Divide, &Some(BinaryOperator::Greater)));
    assert!(!operator_has_too_less_precedence(&BinaryOperator::Less, &None));
}

#[test]
fn basic_type_names() {
    assert_eq!(BasicDataType::try_from("int"), Ok(BasicDataType::Int));
    assert_eq!(BasicDataType::try_from("float"), Ok(BasicDataType::Float));
    assert_eq!(BasicDataType::try_from("Person"), Err(()));
    assert_eq!(BasicDataType::try_from("in"), Err(()));
    assert_eq!(BasicDataType::try_from("floats"), Err(()));
    assert_eq!(BasicDataType::try_from(""), Err(()));
}

#[test]
fn error_messages() {
    let position = PositionRange::default();
    let error = |expected| ParseError { kind: ErrorKind::IllegalSymbol, expected, position };
    assert_eq!(error(Expected::ClosingParenthesis).message(), "expected `)`");
    assert_eq!(error(Expected::Identifier).message(), "expected an identifier");
    assert_eq!(error(Expected::CommaOrClosingParenthesis).message(), "expected `,` or `)`");
    assert_eq!(error(Expected::Expression).message(), "expected an expression");
}
