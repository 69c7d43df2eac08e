use fortytwo_lang::ast::{
    AstNode, BasicDataType, BinaryExpression, BinaryOperator, DataType, Expression, Function,
    FunctionArgument, FunctionCall, FunctionPrototype, PositionContainer, Statement,
    VariableDeclaration,
};
use fortytwo_lang::error::{ErrorKind, Expected, ParseError};
use fortytwo_lang::parser::{parse_variable_declaration, Parser};
use fortytwo_lang::source::{Position, PositionRange};
use fortytwo_lang::token::{Token, TokenKind};

/// The range of `len` characters from `column` on, on `line`.
fn span(line: usize, column: usize, len: usize) -> PositionRange {
    PositionRange {
        start: Position { line, column, offset: column - 1 },
        end: Position { line, column: column + len - 1, offset: column + len - 2 },
    }
}

/// Tokens of words separated by blanks; each line of `source` is one line of text.
fn tokens(source: &str) -> Vec<Token> {
    let mut out = Vec::new();
    for (l, text) in source.split('\n').enumerate() {
        let mut column = 1;
        for word in text.split(' ') {
            if !word.is_empty() {
                let kind = match word {
                    "def" => TokenKind::FunctionDefinition,
                    "extern" => TokenKind::Extern,
                    "ptr" => TokenKind::Pointer,
                    "(" => TokenKind::OpeningParentheses,
                    ")" => TokenKind::ClosingParentheses,
                    ":" => TokenKind::Colon,
                    "," => TokenKind::Comma,
                    "=" => TokenKind::Equal,
                    ";" => TokenKind::EndOfStatement,
                    "+" => TokenKind::Plus,
                    "-" => TokenKind::Minus,
                    "*" => TokenKind::Star,
                    "/" => TokenKind::Slash,
                    "<" => TokenKind::Less,
                    ">" => TokenKind::Greater,
                    w if w.chars().all(|c| c.is_ascii_digit() || c == '.') => {
                        TokenKind::Number(w.parse::<f64>().unwrap().to_bits())
                    }
                    w => TokenKind::Identifier(w.to_owned()),
                };
                out.push(Token { kind, position: span(l + 1, column, word.chars().count()) });
            }
            column += word.chars().count() + 1;
        }
    }
    out
}

fn parser(source: &str) -> Parser {
    Parser::new(tokens(source))
}

fn expression(source: &str) -> Result<Expression, ParseError> {
    parser(source).parse_binary_expression()
}

fn num(value: f64, column: usize, len: usize) -> Expression {
    Expression::Number(PositionContainer { value: value.to_bits(), position: span(1, column, len) })
}

fn var(name: &str, column: usize) -> Expression {
    Expression::Variable(PositionContainer {
        value: name.to_owned(),
        position: span(1, column, name.chars().count()),
    })
}

fn bin(lhs: Expression, operator: BinaryOperator, column: usize, rhs: Expression) -> Expression {
    Expression::BinaryExpression(BinaryExpression {
        lhs: Box::new(lhs),
        operator: PositionContainer { value: operator, position: span(1, column, 1) },
        rhs: Box::new(rhs),
    })
}

fn call(name: &str, column: usize, args: Vec<Expression>) -> Expression {
    Expression::FunctionCall(FunctionCall {
        name: PositionContainer { value: name.to_owned(), position: span(1, column, name.chars().count()) },
        args,
    })
}

fn named(name: &str, line: usize, column: usize) -> PositionContainer<String> {
    PositionContainer { value: name.to_owned(), position: span(line, column, name.chars().count()) }
}

fn typed(data_type: DataType, line: usize, column: usize, len: usize) -> PositionContainer<DataType> {
    PositionContainer { value: data_type, position: span(line, column, len) }
}

#[test]
fn multiplication_binds_stronger_than_addition() {
    assert_eq!(
        expression("1 + 2 * 3"),
        Ok(bin(num(1.0, 1, 1), BinaryOperator::Add, 3, bin(num(2.0, 5, 1), BinaryOperator::Multiply, 7, num(3.0, 9, 1))))
    );
    assert_eq!(
        expression("1 * 2 + 3"),
        Ok(bin(bin(num(1.0, 1, 1), BinaryOperator::Multiply, 3, num(2.0, 5, 1)), BinaryOperator::Add, 7, num(3.0, 9, 1)))
    );
}

#[test]
fn comparison_binds_weakest() {
    assert_eq!(
        expression("a < b - c"),
        Ok(bin(var("a", 1), BinaryOperator::Less, 3, bin(var("b", 5), BinaryOperator::Subtract, 7, var("c", 9))))
    );
    assert_eq!(
        expression("a / b > c"),
        Ok(bin(bin(var("a", 1), BinaryOperator::Divide, 3, var("b", 5)), BinaryOperator::Greater, 7, var("c", 9)))
    );
}

#[test]
fn mixed_precedence_chain() {
    // 1 < 2 + 3 * 4 - 5  groups as  1 < ((2 + (3 * 4)) - 5)
    let product = bin(num(3.0, 9, 1), BinaryOperator::Multiply, 11, num(4.0, 13, 1));
    let sum = bin(num(2.0, 5, 1), BinaryOperator::Add, 7, product);
    let difference = bin(sum, BinaryOperator::Subtract, 15, num(5.0, 17, 1));
    assert_eq!(expression("1 < 2 + 3 * 4 - 5"), Ok(bin(num(1.0, 1, 1), BinaryOperator::Less, 3, difference)));
}

#[test]
fn equal_precedence_groups_from_the_left() {
    assert_eq!(
        expression("1 - 2 - 3"),
        Ok(bin(bin(num(1.0, 1, 1), BinaryOperator::Subtract, 3, num(2.0, 5, 1)), BinaryOperator::Subtract, 7, num(3.0, 9, 1)))
    );
    assert_eq!(
        expression("8 / 4 * 2"),
        Ok(bin(bin(num(8.0, 1, 1), BinaryOperator::Divide, 3, num(4.0, 5, 1)), BinaryOperator::Multiply, 7, num(2.0, 9, 1)))
    );
}

#[test]
fn parentheses_override_precedence() {
    assert_eq!(
        expression("( 1 + 2 ) * 3"),
        Ok(bin(bin(num(1.0, 3, 1), BinaryOperator::Add, 5, num(2.0, 7, 1)), BinaryOperator::Multiply, 11, num(3.0, 13, 1)))
    );
    assert_eq!(expression("( ( x ) )"), Ok(var("x", 5)));
}

#[test]
fn nested_pointer_type() {
    let mut p = parser("ptr ptr int");
    let parsed = p.parse_type().unwrap();
    let int = typed(DataType::Basic(BasicDataType::Int), 1, 9, 3);
    let inner = PositionContainer {
        value: DataType::Pointer(Box::new(int)),
        position: PositionRange { start: span(1, 5, 3).start, end: span(1, 9, 3).end },
    };
    let expected = PositionContainer {
        value: DataType::Pointer(Box::new(inner)),
        position: PositionRange { start: span(1, 1, 3).start, end: span(1, 9, 3).end },
    };
    assert_eq!(parsed.position.start, Position { line: 1, column: 1, offset: 0 });
    assert_eq!(parsed.position.end, Position { line: 1, column: 11, offset: 10 });
    assert_eq!(parsed, expected);
    assert_eq!(p.current_position(), span(1, 9, 3));
}

#[test]
fn type_names() {
    assert_eq!(parser("float").parse_type(), Ok(typed(DataType::Basic(BasicDataType::Float), 1, 1, 5)));
    assert_eq!(parser("Person").parse_type(), Ok(typed(DataType::Struct("Person".to_owned()), 1, 1, 6)));
    assert_eq!(
        parser("42").parse_type(),
        Err(ParseError { kind: ErrorKind::IllegalToken, expected: Expected::DataType, position: span(1, 1, 2) })
    );
    assert_eq!(
        parser("ptr").parse_type(),
        Err(ParseError { kind: ErrorKind::IllegalToken, expected: Expected::DataType, position: span(1, 1, 3) })
    );
}

#[test]
fn variable_and_calls() {
    assert_eq!(expression("foo"), Ok(var("foo", 1)));
    assert_eq!(expression("foo ( )"), Ok(call("foo", 1, vec![])));
    assert_eq!(expression("foo ( 1 , 2 )"), Ok(call("foo", 1, vec![num(1.0, 7, 1), num(2.0, 11, 1)])));
    assert_eq!(
        expression("f ( a + 1 , g ( b ) )"),
        Ok(call("f", 1, vec![bin(var("a", 5), BinaryOperator::Add, 7, num(1.0, 9, 1)), call("g", 13, vec![var("b", 17)])]))
    );
}

#[test]
fn unclosed_call_reports_its_last_token() {
    assert_eq!(
        expression("foo ( 1 , 2"),
        Err(ParseError {
            kind: ErrorKind::ExpectedSymbol,
            expected: Expected::CommaOrClosingParenthesis,
            position: span(1, 11, 1),
        })
    );
    assert_eq!(
        expression("foo ( 1 2 )"),
        Err(ParseError {
            kind: ErrorKind::ExpectedSymbol,
            expected: Expected::CommaOrClosingParenthesis,
            position: span(1, 9, 1),
        })
    );
}

#[test]
fn missing_expression() {
    assert_eq!(
        expression(""),
        Err(ParseError { kind: ErrorKind::ExpectedExpression, expected: Expected::Expression, position: PositionRange::default() })
    );
    assert_eq!(
        expression("1 + )"),
        Err(ParseError { kind: ErrorKind::ExpectedExpression, expected: Expected::Expression, position: span(1, 5, 1) })
    );
    assert_eq!(
        expression("1 *"),
        Err(ParseError { kind: ErrorKind::ExpectedExpression, expected: Expected::Expression, position: span(1, 3, 1) })
    );
}

#[test]
fn primary_expression_error_consumes_nothing() {
    for source in [") x", "+ 1", ", 2", ""] {
        let mut p = parser(source);
        let before = p.current_position();
        let error = p.parse_primary_expression().unwrap_err();
        assert_eq!(error.kind, ErrorKind::ExpectedExpression);
        assert_eq!(error.position, before);
        assert_eq!(p.current_position(), before);
    }
    let mut p = parser(") x");
    assert!(p.parse_primary_expression().is_err());
    assert_eq!(p.current_position(), span(1, 1, 1));
}

#[test]
fn unclosed_parentheses() {
    assert_eq!(
        expression("( 1 + 2 3"),
        Err(ParseError { kind: ErrorKind::IllegalSymbol, expected: Expected::ClosingParenthesis, position: span(1, 9, 1) })
    );
}

#[test]
fn expression_stops_before_other_tokens() {
    let mut p = parser("a + b ) c");
    assert_eq!(p.parse_binary_expression(), Ok(bin(var("a", 1), BinaryOperator::Add, 3, var("b", 5))));
    assert_eq!(p.current_position(), span(1, 7, 1));
}

#[test]
fn prototype_with_arguments() {
    let mut p = parser("write ( fd : int , buf : ptr Buffer )");
    let expected = FunctionPrototype {
        name: named("write", 1, 1),
        args: vec![
            FunctionArgument { name: named("fd", 1, 9), data_type: typed(DataType::Basic(BasicDataType::Int), 1, 14, 3) },
            FunctionArgument {
                name: named("buf", 1, 20),
                data_type: PositionContainer {
                    value: DataType::Pointer(Box::new(typed(DataType::Struct("Buffer".to_owned()), 1, 30, 6))),
                    position: PositionRange { start: span(1, 26, 3).start, end: span(1, 30, 6).end },
                },
            },
        ],
    };
    assert_eq!(p.parse_function_prototype(), Ok(expected));
    assert_eq!(parser("main ( )").parse_function_prototype(), Ok(FunctionPrototype { name: named("main", 1, 1), args: vec![] }));
}

#[test]
fn prototype_errors() {
    assert_eq!(
        parser("1 ( )").parse_function_prototype(),
        Err(ParseError { kind: ErrorKind::IllegalToken, expected: Expected::Identifier, position: span(1, 1, 1) })
    );
    assert_eq!(
        parser("f x )").parse_function_prototype(),
        Err(ParseError { kind: ErrorKind::IllegalSymbol, expected: Expected::OpeningParenthesis, position: span(1, 3, 1) })
    );
    assert_eq!(
        parser("f ( x int )").parse_function_prototype(),
        Err(ParseError { kind: ErrorKind::IllegalSymbol, expected: Expected::Colon, position: span(1, 7, 3) })
    );
    assert_eq!(
        parser("f ( x : int ,").parse_function_prototype(),
        Err(ParseError { kind: ErrorKind::IllegalToken, expected: Expected::Identifier, position: span(1, 13, 1) })
    );
    assert_eq!(
        parser("f ( x : int").parse_function_prototype(),
        Err(ParseError { kind: ErrorKind::IllegalSymbol, expected: Expected::ClosingParenthesis, position: span(1, 9, 3) })
    );
}

#[test]
fn top_level_items() {
    let mut p = parser("def add ( a : int ) a + 1 ;\nextern sin ( x : float )\n;\n2 * 3 ;");
    let add = Function {
        prototype: FunctionPrototype {
            name: named("add", 1, 5),
            args: vec![FunctionArgument { name: named("a", 1, 11), data_type: typed(DataType::Basic(BasicDataType::Int), 1, 15, 3) }],
        },
        body: bin(var("a", 21), BinaryOperator::Add, 23, num(1.0, 25, 1)),
    };
    assert_eq!(p.next(), Some(Ok(AstNode::Statement(Statement::Function(add)))));
    let sin = FunctionPrototype {
        name: named("sin", 2, 8),
        args: vec![FunctionArgument { name: named("x", 2, 14), data_type: typed(DataType::Basic(BasicDataType::Float), 2, 18, 5) }],
    };
    assert_eq!(p.next(), Some(Ok(AstNode::Statement(Statement::FunctionPrototype(sin)))));
    let product = Expression::BinaryExpression(BinaryExpression {
        lhs: Box::new(Expression::Number(PositionContainer { value: 2.0f64.to_bits(), position: span(4, 1, 1) })),
        operator: PositionContainer { value: BinaryOperator::Multiply, position: span(4, 3, 1) },
        rhs: Box::new(Expression::Number(PositionContainer { value: 3.0f64.to_bits(), position: span(4, 5, 1) })),
    });
    let main = Function {
        prototype: FunctionPrototype {
            name: PositionContainer { value: "__main_line_4".to_owned(), position: span(4, 7, 1) },
            args: vec![],
        },
        body: product,
    };
    assert_eq!(p.next(), Some(Ok(AstNode::Statement(Statement::Function(main)))));
    assert_eq!(p.next(), None);
    assert_eq!(p.next(), None);
}

#[test]
fn top_level_expression_at_the_end_is_named_after_the_last_line() {
    let mut p = parser(";\n;\n\n\n\n\n\n\n\n\n\n\nx");
    let item = p.next().unwrap().unwrap();
    match item {
        AstNode::Statement(Statement::Function(f)) => {
            assert_eq!(f.prototype.name.value, "__main_line_13");
            assert_eq!(f.body, Expression::Variable(named("x", 13, 1)));
        }
        other => panic!("unexpected item {:?}", other),
    }
    assert_eq!(p.next(), None);
}

#[test]
fn only_ends_of_statements() {
    assert_eq!(parser("; ;\n;").next(), None);
    assert_eq!(parser("").next(), None);
}

#[test]
fn items_end_after_an_error() {
    let mut p = parser("def f ( ) ) ; 1 + 2");
    assert_eq!(
        p.next(),
        Some(Err(ParseError { kind: ErrorKind::ExpectedExpression, expected: Expected::Expression, position: span(1, 11, 1) }))
    );
    assert_eq!(p.next(), None);
    let mut q = parser("extern 5");
    assert_eq!(
        q.next(),
        Some(Err(ParseError { kind: ErrorKind::IllegalToken, expected: Expected::Identifier, position: span(1, 8, 1) }))
    );
    assert_eq!(q.next(), None);
}

#[test]
fn variable_declaration() {
    let mut p = parser("answer : int = 40 + 2");
    let expected = VariableDeclaration {
        name: named("answer", 1, 1),
        data_type: typed(DataType::Basic(BasicDataType::Int), 1, 10, 3),
        value: bin(num(40.0, 16, 2), BinaryOperator::Add, 19, num(2.0, 21, 1)),
    };
    assert_eq!(parse_variable_declaration(&mut p), Ok(expected));
    assert_eq!(
        parse_variable_declaration(&mut parser("x : int 5")),
        Err(ParseError { kind: ErrorKind::IllegalSymbol, expected: Expected::Equal, position: span(1, 9, 1) })
    );
    assert_eq!(
        parse_variable_declaration(&mut parser("x = 5")),
        Err(ParseError { kind: ErrorKind::IllegalSymbol, expected: Expected::Colon, position: span(1, 3, 1) })
    );
}

#[test]
fn variable_declaration_rejects_an_empty_name() {
    let toks = vec![
        Token { kind: TokenKind::Identifier(String::new()), position: span(1, 1, 1) },
        Token { kind: TokenKind::Colon, position: span(1, 3, 1) },
        Token { kind: TokenKind::Identifier("int".to_owned()), position: span(1, 5, 3) },
        Token { kind: TokenKind::Equal, position: span(1, 9, 1) },
        Token { kind: TokenKind::Number(1.0f64.to_bits()), position: span(1, 11, 1) },
    ];
    assert_eq!(
        parse_variable_declaration(&mut Parser::new(toks)),
        Err(ParseError { kind: ErrorKind::IllegalToken, expected: Expected::Identifier, position: span(1, 1, 1) })
    );
}

#[test]
fn printed_expressions_parse_back() {
    for source in [
        "1 - 2 - 3",
        "1 + 2 * 3 < f ( x , 4 / y , g ( ) )",
        "( a + b ) * ( c - d ) / e",
        "a > b",
        "h ( 1 - ( 2 - 3 ) )",
        "x",
    ] {
        let first = expression(source).unwrap();
        let printed = first.to_tokens();
        let mut again = Parser::new(printed.clone());
        assert_eq!(again.parse_binary_expression(), Ok(first), "{}", source);
        assert_eq!(again.next(), None, "{}", source);
    }
}

#[test]
fn printing_parenthesizes_binary_operands() {
    let kinds: Vec<TokenKind> = expression("1 - ( 2 - 3 )").unwrap().to_tokens().into_iter().map(|t| t.kind).collect();
    assert_eq!(
        kinds,
        vec![
            TokenKind::Number(1.0f64.to_bits()),
            TokenKind::Minus,
            TokenKind::OpeningParentheses,
            TokenKind::Number(2.0f64.to_bits()),
            TokenKind::Minus,
            TokenKind::Number(3.0f64.to_bits()),
            TokenKind::ClosingParentheses,
        ]
    );
    let call: Vec<TokenKind> = expression("f ( a , b )").unwrap().to_tokens().into_iter().map(|t| t.kind).collect();
    assert_eq!(
        call,
        vec![
            TokenKind::Identifier("f".to_owned()),
            TokenKind::OpeningParentheses,
            TokenKind::Identifier("a".to_owned()),
            TokenKind::Comma,
            TokenKind::Identifier("b".to_owned()),
            TokenKind::ClosingParentheses,
        ]
    );
    assert_eq!(BinaryOperator::Divide.token_kind(), TokenKind::Slash);
    assert_eq!(BinaryOperator::Greater.token_kind(), TokenKind::Greater);
}
