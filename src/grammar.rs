//! The grammar, as functions from a token sequence and a start index to what is parsed there and the
//! index of the first token after it.
//!
//! Every parse that succeeds consumes at least one token. The definitions below test this where a
//! recursive step depends on it, which keeps them well-founded. The parser's contracts, and
//! `laws::lemma_error_position` for the definitions themselves, show that the test always passes.
use vstd::prelude::*;

use crate::ast::{
    basic_type_named, BinaryOperator, DataType, ExprView, FunctionArgument, FunctionView,
    NodeView, PositionContainer, PrototypeView, StatementView,
};
use crate::error::{ErrorKind, Expected, ParseError};
use crate::source::{decimal, Position, PositionRange};
use crate::token::{operator_of, Token, TokenKind};

verus! {

/// What a parse yields: a value and the index after it, or an error.
pub type Parsed<T> = Result<(T, int), ParseError>;

/// The range used where no token at all is at hand.
pub open spec fn no_position() -> PositionRange {
    PositionRange {
        start: Position { line: 0, column: 0, offset: 0 },
        end: Position { line: 0, column: 0, offset: 0 },
    }
}

/// Where an error at index `i` is reported: at the token there, or at the last token when the input
/// has ended.
pub open spec fn position_at(toks: Seq<Token>, i: int) -> PositionRange {
    if 0 <= i < toks.len() {
        toks[i].position
    } else if toks.len() > 0 {
        toks.last().position
    } else {
        no_position()
    }
}

/// The kind of the token at index `i`, if there is one.
pub open spec fn kind_at(toks: Seq<Token>, i: int) -> Option<TokenKind> {
    if 0 <= i < toks.len() {
        Some(toks[i].kind)
    } else {
        None
    }
}

/// The binary operator at index `i`, if a token there denotes one.
pub open spec fn operator_at(toks: Seq<Token>, i: int) -> Option<BinaryOperator> {
    match kind_at(toks, i) {
        Some(k) => operator_of(k),
        None => None,
    }
}

pub open spec fn error_at(
    kind: ErrorKind,
    expected: Expected,
    toks: Seq<Token>,
    i: int,
) -> ParseError {
    ParseError { kind, expected, position: position_at(toks, i) }
}

/// The string held by the identifier at index `i`.
pub open spec fn identifier_at(toks: Seq<Token>, i: int) -> PositionContainer<String> {
    PositionContainer { value: toks[i].kind->Identifier_0, position: toks[i].position }
}

pub open spec fn is_identifier_at(toks: Seq<Token>, i: int) -> bool {
    kind_at(toks, i) matches Some(TokenKind::Identifier(_))
}

/// A data type: `ptr` followed by a data type, or a name. The names `int` and `float` are basic
/// types; any other name refers to a struct. A pointer's range runs from `ptr` to the end of the
/// type it points to.
pub open spec fn data_type(toks: Seq<Token>, i: int) -> Parsed<PositionContainer<DataType>>
    decreases toks.len() - i,
{
    match kind_at(toks, i) {
        Some(TokenKind::Pointer) => match data_type(toks, i + 1) {
            Ok((inner, j)) => Ok(
                (
                    PositionContainer {
                        value: DataType::Pointer(Box::new(inner)),
                        position: PositionRange {
                            start: toks[i].position.start,
                            end: inner.position.end,
                        },
                    },
                    j,
                ),
            ),
            Err(e) => Err(e),
        },
        Some(TokenKind::Identifier(name)) => Ok(
            (
                PositionContainer {
                    value: match basic_type_named(name@) {
                        Some(b) => DataType::Basic(b),
                        None => DataType::Struct(name),
                    },
                    position: toks[i].position,
                },
                i + 1,
            ),
        ),
        _ => Err(error_at(ErrorKind::IllegalToken, Expected::DataType, toks, i)),
    }
}

/// The arguments `name: type` from index `i` on, separated by commas, appended to `acc`.
pub open spec fn arguments(toks: Seq<Token>, i: int, acc: Seq<FunctionArgument>) -> Parsed<
    Seq<FunctionArgument>,
>
    decreases toks.len() - i,
{
    if !is_identifier_at(toks, i) {
        Err(error_at(ErrorKind::IllegalToken, Expected::Identifier, toks, i))
    } else if kind_at(toks, i + 1) != Some(TokenKind::Colon) {
        Err(error_at(ErrorKind::IllegalSymbol, Expected::Colon, toks, i + 1))
    } else {
        match data_type(toks, i + 2) {
            Ok((t, j)) => {
                let acc = acc.push(FunctionArgument { name: identifier_at(toks, i), data_type: t });
                if kind_at(toks, j) == Some(TokenKind::Comma) {
                    if j > i {
                        arguments(toks, j + 1, acc)
                    } else {
                        Ok((acc, j))
                    }
                } else {
                    Ok((acc, j))
                }
            },
            Err(e) => Err(e),
        }
    }
}

/// A possibly empty argument list: empty, consuming nothing, unless it starts with an identifier.
pub open spec fn argument_list(toks: Seq<Token>, i: int) -> Parsed<Seq<FunctionArgument>> {
    if is_identifier_at(toks, i) {
        arguments(toks, i, Seq::empty())
    } else {
        Ok((Seq::empty(), i))
    }
}

/// A prototype: `name ( arguments )`, where the argument list is empty unless it starts with an
/// identifier.
pub open spec fn prototype(toks: Seq<Token>, i: int) -> Parsed<PrototypeView> {
    if !is_identifier_at(toks, i) {
        Err(error_at(ErrorKind::IllegalToken, Expected::Identifier, toks, i))
    } else if kind_at(toks, i + 1) != Some(TokenKind::OpeningParentheses) {
        Err(error_at(ErrorKind::IllegalSymbol, Expected::OpeningParenthesis, toks, i + 1))
    } else {
        match argument_list(toks, i + 2) {
            Ok((args, j)) => if kind_at(toks, j) == Some(TokenKind::ClosingParentheses) {
                let name = identifier_at(toks, i);
                Ok((PrototypeView { name: name.value@, name_position: name.position, args }, j + 1))
            } else {
                Err(error_at(ErrorKind::IllegalSymbol, Expected::ClosingParenthesis, toks, j))
            },
            Err(e) => Err(e),
        }
    }
}

/// True when a primary expression can start at index `i`: an identifier, a number or `(` stands
/// there.
pub open spec fn starts_primary(toks: Seq<Token>, i: int) -> bool {
    match kind_at(toks, i) {
        Some(TokenKind::Identifier(_)) | Some(TokenKind::Number(_)) | Some(
            TokenKind::OpeningParentheses,
        ) => true,
        _ => false,
    }
}

/// A primary expression: a variable, a call `name ( expressions )`, a number, or an expression in
/// parentheses.
pub open spec fn primary(toks: Seq<Token>, i: int) -> Parsed<ExprView>
    decreases toks.len() - i, 0int,
{
    match kind_at(toks, i) {
        Some(TokenKind::Identifier(_)) => {
            let name = identifier_at(toks, i);
            if kind_at(toks, i + 1) == Some(TokenKind::OpeningParentheses) {
                match call_list(toks, i + 2) {
                    Ok((args, j)) => Ok((ExprView::Call(name, args), j)),
                    Err(e) => Err(e),
                }
            } else {
                Ok((ExprView::Variable(name), i + 1))
            }
        },
        Some(TokenKind::Number(v)) => Ok(
            (ExprView::Number(PositionContainer { value: v, position: toks[i].position }), i + 1),
        ),
        Some(TokenKind::OpeningParentheses) => match expression(toks, i + 1) {
            Ok((e, j)) => if kind_at(toks, j) == Some(TokenKind::ClosingParentheses) {
                Ok((e, j + 1))
            } else {
                Err(error_at(ErrorKind::IllegalSymbol, Expected::ClosingParenthesis, toks, j))
            },
            Err(e) => Err(e),
        },
        _ => Err(error_at(ErrorKind::ExpectedExpression, Expected::Expression, toks, i)),
    }
}

/// The arguments of a call from index `i` on, after its `(`: none if `)` stands there, else a list
/// of expressions; the index returned is the one after `)`.
pub open spec fn call_list(toks: Seq<Token>, i: int) -> Parsed<Seq<ExprView>>
    decreases toks.len() - i, 3int,
{
    if kind_at(toks, i) == Some(TokenKind::ClosingParentheses) {
        Ok((Seq::empty(), i + 1))
    } else {
        call_arguments(toks, i, Seq::empty())
    }
}

/// The arguments of a call from index `i` on, separated by commas and closed by `)`, appended to
/// `acc`; the index returned is the one after `)`.
pub open spec fn call_arguments(toks: Seq<Token>, i: int, acc: Seq<ExprView>) -> Parsed<
    Seq<ExprView>,
>
    decreases toks.len() - i, 2int,
{
    match expression(toks, i) {
        Ok((a, j)) => if kind_at(toks, j) == Some(TokenKind::ClosingParentheses) {
            Ok((acc.push(a), j + 1))
        } else if kind_at(toks, j) == Some(TokenKind::Comma) {
            if j > i {
                call_arguments(toks, j + 1, acc.push(a))
            } else {
                Ok((acc.push(a), j))
            }
        } else {
            Err(
                error_at(
                    ErrorKind::ExpectedSymbol,
                    Expected::CommaOrClosingParenthesis,
                    toks,
                    j,
                ),
            )
        },
        Err(e) => Err(e),
    }
}

/// A binary expression: a primary expression followed by operators and operands.
pub open spec fn expression(toks: Seq<Token>, i: int) -> Parsed<ExprView>
    decreases toks.len() - i, 1int,
{
    match primary(toks, i) {
        Ok((lhs, j)) => if advances(toks, i, j) {
            climb(toks, None, lhs, j)
        } else {
            Ok((lhs, j))
        },
        Err(e) => Err(e),
    }
}

/// True when a parse from index `i` that ended before index `j` consumed at least one token.
pub open spec fn advances(toks: Seq<Token>, i: int, j: int) -> bool {
    i < j <= toks.len()
}

/// True when `op` binds more strongly than `min`, or `min` is unset.
pub open spec fn above(op: BinaryOperator, min: Option<BinaryOperator>) -> bool {
    match min {
        Some(m) => op.precedence_spec() > m.precedence_spec(),
        None => true,
    }
}

/// Precedence climbing: folds `lhs` with the operators from index `i` on that bind more strongly
/// than `min`. An operand is taken by the operator after it when that one binds more strongly;
/// operators of equal precedence fold from the left.
pub open spec fn climb(toks: Seq<Token>, min: Option<BinaryOperator>, lhs: ExprView, i: int) -> Parsed<
    ExprView,
>
    decreases toks.len() - i, 0int,
{
    match operator_at(toks, i) {
        Some(op) => if !above(op, min) {
            Ok((lhs, i))
        } else {
            let operator = PositionContainer { value: op, position: toks[i].position };
            match primary(toks, i + 1) {
                Ok((rhs, j)) => if !advances(toks, i, j) {
                    Ok((lhs, i))
                } else if operator_at(toks, j) matches Some(next) && above(next, Some(op)) {
                    match climb(toks, Some(op), rhs, j) {
                        Ok((rhs, k)) => if advances(toks, i, k) {
                            climb(toks, min, ExprView::Binary(Box::new(lhs), operator, Box::new(rhs)), k)
                        } else {
                            Ok((lhs, i))
                        },
                        Err(e) => Err(e),
                    }
                } else {
                    climb(toks, min, ExprView::Binary(Box::new(lhs), operator, Box::new(rhs)), j)
                },
                Err(e) => Err(e),
            }
        },
        None => Ok((lhs, i)),
    }
}

/// A variable declaration: `name : type = expression`, with a non-empty name.
pub open spec fn variable_declaration(toks: Seq<Token>, i: int) -> Parsed<StatementView> {
    if !is_identifier_at(toks, i) || identifier_at(toks, i).value@.len() == 0 {
        Err(error_at(ErrorKind::IllegalToken, Expected::Identifier, toks, i))
    } else if kind_at(toks, i + 1) != Some(TokenKind::Colon) {
        Err(error_at(ErrorKind::IllegalSymbol, Expected::Colon, toks, i + 1))
    } else {
        match data_type(toks, i + 2) {
            Ok((t, j)) => if kind_at(toks, j) != Some(TokenKind::Equal) {
                Err(error_at(ErrorKind::IllegalSymbol, Expected::Equal, toks, j))
            } else {
                match expression(toks, j + 1) {
                    Ok((v, k)) => Ok(
                        (StatementView::VariableDeclaration(identifier_at(toks, i), t, v), k),
                    ),
                    Err(e) => Err(e),
                }
            },
            Err(e) => Err(e),
        }
    }
}

/// A function definition; index `i` holds the `def` keyword.
pub open spec fn function_definition(toks: Seq<Token>, i: int) -> Parsed<FunctionView> {
    match prototype(toks, i + 1) {
        Ok((p, j)) => match expression(toks, j) {
            Ok((body, k)) => Ok((FunctionView { prototype: p, body }, k)),
            Err(e) => Err(e),
        },
        Err(e) => Err(e),
    }
}

/// The name given to the function that wraps a top-level expression.
pub open spec fn main_name(line: nat) -> Seq<char> {
    "__main_line_"@ + decimal(line)
}

/// A top-level expression, wrapped in a function without arguments that is named after the line
/// of the token that follows the expression (or of the last token, at the end of the input).
pub open spec fn top_level_expression(toks: Seq<Token>, i: int) -> Parsed<FunctionView> {
    match expression(toks, i) {
        Ok((body, j)) => {
            let position = position_at(toks, j);
            let prototype = PrototypeView {
                name: main_name(position.start.line as nat),
                name_position: position,
                args: Seq::empty(),
            };
            Ok((FunctionView { prototype, body }, j))
        },
        Err(e) => Err(e),
    }
}

/// The first index from `i` on that does not hold an end of statement.
pub open spec fn skip_ends(toks: Seq<Token>, i: int) -> int
    decreases toks.len() - i,
{
    if kind_at(toks, i) == Some(TokenKind::EndOfStatement) {
        skip_ends(toks, i + 1)
    } else {
        i
    }
}

/// The next top-level item from index `i` on, and the index after it; `None` when only ends of
/// statements remain. After an error the index is the end of the input: nothing follows an error.
pub open spec fn next_item(toks: Seq<Token>, i: int) -> Option<(Result<NodeView, ParseError>, int)> {
    let k = skip_ends(toks, i);
    match kind_at(toks, k) {
        None => None,
        Some(TokenKind::FunctionDefinition) => Some(
            match function_definition(toks, k) {
                Ok((f, j)) => (Ok(NodeView::Statement(StatementView::Function(f))), j),
                Err(e) => (Err(e), toks.len() as int),
            },
        ),
        Some(TokenKind::Extern) => Some(
            match prototype(toks, k + 1) {
                Ok((p, j)) => (Ok(NodeView::Statement(StatementView::FunctionPrototype(p))), j),
                Err(e) => (Err(e), toks.len() as int),
            },
        ),
        _ => Some(
            match top_level_expression(toks, k) {
                Ok((f, j)) => (Ok(NodeView::Statement(StatementView::Function(f))), j),
                Err(e) => (Err(e), toks.len() as int),
            },
        ),
    }
}

} // verus!
