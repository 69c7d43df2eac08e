//! The parser: recursive descent over a token sequence, with precedence climbing for binary
//! expressions. Each method's result is the one the grammar gives at the parser's position.
use vstd::prelude::*;

use crate::ast::{
    expressions_view, lemma_expressions_view_push, AstNode, BasicDataType, BinaryExpression,
    BinaryOperator, DataType, Expression, Function, FunctionArgument, FunctionCall,
    FunctionPrototype, PositionContainer, Statement, VariableDeclaration,
};
use crate::error::{ErrorKind, Expected, ParseError};
use crate::grammar::{
    argument_list, arguments, call_arguments, call_list, climb, data_type, error_at, expression,
    function_definition, is_identifier_at, kind_at, next_item, operator_at, position_at, primary,
    prototype, skip_ends, starts_primary, top_level_expression, variable_declaration, above,
};
use crate::source::{append_decimal, Position, PositionRange};
use crate::token::{Token, TokenKind};

verus! {

/// A parser over a sequence of tokens, with a cursor at the next token to read.
pub struct Parser {
    tokens: Vec<Token>,
    cursor: usize,
}

/// The value of a [Parser]: its tokens and the index of the next token to read.
pub struct ParserView {
    pub tokens: Seq<Token>,
    pub cursor: nat,
}

impl View for Parser {
    type V = ParserView;

    closed spec fn view(&self) -> ParserView {
        ParserView { tokens: self.tokens@, cursor: self.cursor as nat }
    }
}

/// The cursor stands on a token or just past the last one.
pub open spec fn valid(p: ParserView) -> bool {
    p.cursor <= p.tokens.len()
}

/// A parse from `old` left the tokens as they were and did not move the cursor back or past the end.
pub open spec fn moved_on(old: ParserView, new: ParserView) -> bool {
    &&& new.tokens == old.tokens
    &&& old.cursor <= new.cursor <= new.tokens.len()
}

/// The parser ends where a successful parse ended, or anywhere on an error.
pub open spec fn ended<T>(new: ParserView, parsed: Result<(T, int), ParseError>) -> bool {
    match parsed {
        Ok((_, j)) => new.cursor == j,
        Err(_) => true,
    }
}

impl Parser {
    /// A parser at the start of `tokens`.
    pub fn new(tokens: Vec<Token>) -> (r: Parser)
        ensures
            r@.tokens == tokens@,
            r@.cursor == 0,
    {
        Parser { tokens, cursor: 0 }
    }

    /// The range where an error at index `i` is reported.
    fn position_of(&self, i: usize) -> (r: PositionRange)
        ensures
            r == position_at(self@.tokens, i as int),
    {
        if i < self.tokens.len() {
            self.tokens[i].position
        } else if self.tokens.len() > 0 {
            self.tokens[self.tokens.len() - 1].position
        } else {
            let none = Position { line: 0, column: 0, offset: 0 };
            PositionRange { start: none, end: none }
        }
    }

    /// The range of the next token, or of the last one at the end of the input.
    pub fn current_position(&self) -> (r: PositionRange)
        ensures
            r == position_at(self@.tokens, self@.cursor as int),
    {
        self.position_of(self.cursor)
    }

    fn error(&self, kind: ErrorKind, expected: Expected, i: usize) -> (r: ParseError)
        ensures
            r == error_at(kind, expected, self@.tokens, i as int),
    {
        ParseError { kind, expected, position: self.position_of(i) }
    }

    /// True when the token at index `i` has the given kind, which carries no data.
    fn is_at(&self, i: usize, kind: &TokenKind) -> (r: bool)
        requires
            !(*kind is Identifier) && !(*kind is Number),
        ensures
            r == (kind_at(self@.tokens, i as int) == Some(*kind)),
            r ==> i < self.tokens.len(),
    {
        if i < self.tokens.len() {
            match (&self.tokens[i].kind, kind) {
                (TokenKind::FunctionDefinition, TokenKind::FunctionDefinition) => true,
                (TokenKind::Extern, TokenKind::Extern) => true,
                (TokenKind::Pointer, TokenKind::Pointer) => true,
                (TokenKind::OpeningParentheses, TokenKind::OpeningParentheses) => true,
                (TokenKind::ClosingParentheses, TokenKind::ClosingParentheses) => true,
                (TokenKind::Colon, TokenKind::Colon) => true,
                (TokenKind::Comma, TokenKind::Comma) => true,
                (TokenKind::Equal, TokenKind::Equal) => true,
                (TokenKind::EndOfStatement, TokenKind::EndOfStatement) => true,
                (TokenKind::Plus, TokenKind::Plus) => true,
                (TokenKind::Minus, TokenKind::Minus) => true,
                (TokenKind::Star, TokenKind::Star) => true,
                (TokenKind::Slash, TokenKind::Slash) => true,
                (TokenKind::Less, TokenKind::Less) => true,
                (TokenKind::Greater, TokenKind::Greater) => true,
                _ => false,
            }
        } else {
            false
        }
    }

    /// The identifier at index `i`, if one stands there.
    fn identifier_at(&self, i: usize) -> (r: Option<PositionContainer<String>>)
        ensures
            match r {
                Some(name) => is_identifier_at(self@.tokens, i as int) && name
                    == crate::grammar::identifier_at(self@.tokens, i as int),
                None => !is_identifier_at(self@.tokens, i as int),
            },
            r is Some ==> i < self.tokens.len(),
    {
        if i < self.tokens.len() {
            match &self.tokens[i].kind {
                TokenKind::Identifier(name) => Some(
                    PositionContainer { value: name.clone(), position: self.tokens[i].position },
                ),
                _ => None,
            }
        } else {
            None
        }
    }

    /// Parses a data type: `ptr` followed by a data type, `int`, `float`, or the name of a struct.
    pub fn parse_type(&mut self) -> (r: Result<PositionContainer<DataType>, ParseError>)
        requires
            valid(old(self)@),
        ensures
            moved_on(old(self)@, final(self)@),
            ended(final(self)@, data_type(old(self)@.tokens, old(self)@.cursor as int)),
            match data_type(old(self)@.tokens, old(self)@.cursor as int) {
                Ok((t, j)) => r == Ok::<_, ParseError>(t) && j > old(self)@.cursor,
                Err(e) => r == Err::<PositionContainer<DataType>, _>(e),
            },
        decreases old(self)@.tokens.len() - old(self)@.cursor,
    {
        let i = self.cursor;
        if self.is_at(i, &TokenKind::Pointer) {
            let start = self.tokens[i].position.start;
            self.cursor = i + 1;
            let inner = self.parse_type()?;
            let end = inner.position.end;
            Ok(PositionContainer { value: DataType::Pointer(Box::new(inner)), position: PositionRange { start, end } })
        } else {
            match self.identifier_at(i) {
                Some(name) => {
                    let value = match BasicDataType::try_from(name.value.as_str()) {
                        Ok(b) => DataType::Basic(b),
                        Err(_) => DataType::Struct(name.value),
                    };
                    self.cursor = i + 1;
                    Ok(PositionContainer { value, position: name.position })
                },
                None => Err(self.error(ErrorKind::IllegalToken, Expected::DataType, i)),
            }
        }
    }

    /// Parses `name: type` pairs separated by commas. The list is empty, and nothing is consumed,
    /// unless an identifier stands at the cursor.
    fn parse_argument_list(&mut self) -> (r: Result<Vec<FunctionArgument>, ParseError>)
        requires
            valid(old(self)@),
        ensures
            moved_on(old(self)@, final(self)@),
            ended(final(self)@, argument_list(old(self)@.tokens, old(self)@.cursor as int)),
            match argument_list(old(self)@.tokens, old(self)@.cursor as int) {
                Ok((args, j)) => r matches Ok(v) && v@ == args,
                Err(e) => r == Err::<Vec<FunctionArgument>, _>(e),
            },
    {
        if !self.is_identifier(self.cursor) {
            return Ok(Vec::new());
        }
        let ghost toks = self@.tokens;
        let ghost start = self@.cursor as int;
        let mut args: Vec<FunctionArgument> = Vec::new();
        loop
            invariant
                valid(self@),
                self@.tokens == toks,
                toks == old(self)@.tokens,
                start == old(self)@.cursor,
                start <= self@.cursor,
                args@.len() > 0 ==> start < self@.cursor,
                argument_list(toks, start) == arguments(toks, self@.cursor as int, args@),
            decreases self@.tokens.len() - self@.cursor,
        {
            let i = self.cursor;
            let name = match self.identifier_at(i) {
                Some(name) => name,
                None => return Err(self.error(ErrorKind::IllegalToken, Expected::Identifier, i)),
            };
            if !self.is_at(i + 1, &TokenKind::Colon) {
                return Err(self.error(ErrorKind::IllegalSymbol, Expected::Colon, i + 1));
            }
            self.cursor = i + 2;
            let data_type = self.parse_type()?;
            args.push(FunctionArgument { name, data_type });
            let j = self.cursor;
            if self.is_at(j, &TokenKind::Comma) {
                self.cursor = j + 1;
            } else {
                return Ok(args);
            }
        }
    }

    /// Parses a prototype: a function name, `(`, a possibly empty argument list, and `)`.
    pub fn parse_function_prototype(&mut self) -> (r: Result<FunctionPrototype, ParseError>)
        requires
            valid(old(self)@),
        ensures
            moved_on(old(self)@, final(self)@),
            ended(final(self)@, prototype(old(self)@.tokens, old(self)@.cursor as int)),
            match prototype(old(self)@.tokens, old(self)@.cursor as int) {
                Ok((p, j)) => r matches Ok(v) && v@ == p && j > old(self)@.cursor,
                Err(e) => r == Err::<FunctionPrototype, _>(e),
            },
    {
        let i = self.cursor;
        let name = match self.identifier_at(i) {
            Some(name) => name,
            None => return Err(self.error(ErrorKind::IllegalToken, Expected::Identifier, i)),
        };
        if !self.is_at(i + 1, &TokenKind::OpeningParentheses) {
            return Err(self.error(ErrorKind::IllegalSymbol, Expected::OpeningParenthesis, i + 1));
        }
        self.cursor = i + 2;
        let args = self.parse_argument_list()?;
        let j = self.cursor;
        if !self.is_at(j, &TokenKind::ClosingParentheses) {
            return Err(self.error(ErrorKind::IllegalSymbol, Expected::ClosingParenthesis, j));
        }
        self.cursor = j + 1;
        Ok(FunctionPrototype { name, args })
    }
    /// The binary operator at index `i`, if a token there denotes one.
    fn operator_at(&self, i: usize) -> (r: Option<BinaryOperator>)
        ensures
            r == operator_at(self@.tokens, i as int),
            r is Some ==> i < self.tokens.len(),
    {
        if i < self.tokens.len() {
            match BinaryOperator::try_from(&self.tokens[i].kind) {
                Ok(op) => Some(op),
                Err(_) => None,
            }
        } else {
            None
        }
    }

    /// The operator at index `i`, if one stands there and binds more strongly than `min_operator`
    /// (or `min_operator` is unset). Nothing is consumed.
    fn parse_operator(&self, min_operator: Option<BinaryOperator>, i: usize) -> (r: Option<
        BinaryOperator,
    >)
        ensures
            r == match operator_at(self@.tokens, i as int) {
                Some(op) => if above(op, min_operator) {
                    Some(op)
                } else {
                    None
                },
                None => None,
            },
            r is Some ==> i < self.tokens.len(),
    {
        let operator = self.operator_at(i)?;
        let binds = match min_operator {
            Some(min_op) => operator.precedence() > min_op.precedence(),
            None => true,
        };
        if binds {
            Some(operator)
        } else {
            None
        }
    }

    /// True when an identifier stands at index `i`.
    fn is_identifier(&self, i: usize) -> (r: bool)
        ensures
            r == is_identifier_at(self@.tokens, i as int),
            r ==> i < self.tokens.len(),
    {
        i < self.tokens.len() && matches!(self.tokens[i].kind, TokenKind::Identifier(_))
    }

    /// Parses a binary expression: a primary expression, then pairs of an operator and an operand,
    /// grouped by precedence.
    pub fn parse_binary_expression(&mut self) -> (r: Result<Expression, ParseError>)
        requires
            valid(old(self)@),
        ensures
            moved_on(old(self)@, final(self)@),
            ended(final(self)@, expression(old(self)@.tokens, old(self)@.cursor as int)),
            match expression(old(self)@.tokens, old(self)@.cursor as int) {
                Ok((e, j)) => r matches Ok(v) && v@ == e && j > old(self)@.cursor,
                Err(err) => r == Err::<Expression, _>(err),
            },
        decreases old(self)@.tokens.len() - old(self)@.cursor, 6int,
    {
        let lhs = self.parse_primary_expression()?;
        self.parse_binary_operation_rhs(None, lhs)
    }

    /// Folds `lhs` with the operators from the cursor on that bind more strongly than
    /// `min_operator` (all of them if it is unset). When the operator after an operand binds more
    /// strongly than the one before it, the operand goes with the one after it.
    fn parse_binary_operation_rhs(
        &mut self,
        min_operator: Option<BinaryOperator>,
        lhs: Expression,
    ) -> (r: Result<Expression, ParseError>)
        requires
            valid(old(self)@),
        ensures
            moved_on(old(self)@, final(self)@),
            ended(final(self)@, climb(old(self)@.tokens, min_operator, lhs@, old(self)@.cursor as int)),
            match climb(old(self)@.tokens, min_operator, lhs@, old(self)@.cursor as int) {
                Ok((e, j)) => r matches Ok(v) && v@ == e,
                Err(err) => r == Err::<Expression, _>(err),
            },
        decreases old(self)@.tokens.len() - old(self)@.cursor, 0int,
    {
        let ghost toks = self@.tokens;
        let ghost start = self@.cursor as int;
        let ghost lhs0 = lhs@;
        let mut folded = lhs;
        loop
            invariant
                valid(self@),
                self@.tokens == toks,
                toks == old(self)@.tokens,
                start == old(self)@.cursor,
                start <= self@.cursor,
                lhs0 == lhs@,
                climb(toks, min_operator, lhs0, start) == climb(
                    toks,
                    min_operator,
                    folded@,
                    self@.cursor as int,
                ),
            decreases self@.tokens.len() - self@.cursor,
        {
            let i = self.cursor;
            let operator = match self.parse_operator(min_operator, i) {
                Some(op) => op,
                None => return Ok(folded),
            };
            let position = self.tokens[i].position;
            self.cursor = i + 1;
            let mut rhs = self.parse_primary_expression()?;
            let j = self.cursor;
            if self.parse_operator(Some(operator), j).is_some() {
                rhs = self.parse_binary_operation_rhs(Some(operator), rhs)?;
            }
            folded = Expression::BinaryExpression(
                BinaryExpression {
                    lhs: Box::new(folded),
                    operator: PositionContainer { value: operator, position },
                    rhs: Box::new(rhs),
                },
            );
        }
    }

    /// Parses a primary expression: a variable, a function call, a number, or an expression in
    /// parentheses.
    pub fn parse_primary_expression(&mut self) -> (r: Result<Expression, ParseError>)
        requires
            valid(old(self)@),
        ensures
            moved_on(old(self)@, final(self)@),
            ended(final(self)@, primary(old(self)@.tokens, old(self)@.cursor as int)),
            match primary(old(self)@.tokens, old(self)@.cursor as int) {
                Ok((e, j)) => r matches Ok(v) && v@ == e && j > old(self)@.cursor,
                Err(err) => r == Err::<Expression, _>(err),
            },
            !starts_primary(old(self)@.tokens, old(self)@.cursor as int) ==> final(self)@.cursor
                == old(self)@.cursor,
        decreases old(self)@.tokens.len() - old(self)@.cursor, 5int,
    {
        let i = self.cursor;
        if self.is_identifier(i) {
            self.parse_identifier_expression()
        } else if self.is_at(i, &TokenKind::OpeningParentheses) {
            self.parse_parentheses()
        } else if i < self.tokens.len() && matches!(self.tokens[i].kind, TokenKind::Number(_)) {
            Ok(Expression::Number(self.parse_number()))
        } else {
            Err(self.error(ErrorKind::ExpectedExpression, Expected::Expression, i))
        }
    }

    /// Reads the number at the cursor.
    fn parse_number(&mut self) -> (r: PositionContainer<u64>)
        requires
            valid(old(self)@),
            old(self)@.cursor < old(self)@.tokens.len(),
            old(self)@.tokens[old(self)@.cursor as int].kind is Number,
        ensures
            final(self)@.tokens == old(self)@.tokens,
            final(self)@.cursor == old(self)@.cursor + 1,
            r == (PositionContainer {
                value: old(self)@.tokens[old(self)@.cursor as int].kind->Number_0,
                position: old(self)@.tokens[old(self)@.cursor as int].position,
            }),
    {
        let i = self.cursor;
        assert(i < self.tokens.len());
        let value = match &self.tokens[i].kind {
            TokenKind::Number(v) => *v,
            _ => 0,
        };
        let position = self.tokens[i].position;
        self.cursor = i + 1;
        PositionContainer { value, position }
    }

    /// Parses an identifier at the cursor: a function call if `(` follows it, else a variable.
    fn parse_identifier_expression(&mut self) -> (r: Result<Expression, ParseError>)
        requires
            valid(old(self)@),
            is_identifier_at(old(self)@.tokens, old(self)@.cursor as int),
        ensures
            moved_on(old(self)@, final(self)@),
            ended(final(self)@, primary(old(self)@.tokens, old(self)@.cursor as int)),
            match primary(old(self)@.tokens, old(self)@.cursor as int) {
                Ok((e, j)) => r matches Ok(v) && v@ == e && j > old(self)@.cursor,
                Err(err) => r == Err::<Expression, _>(err),
            },
        decreases old(self)@.tokens.len() - old(self)@.cursor, 4int,
    {
        let i = self.cursor;
        let identifier = match self.identifier_at(i) {
            Some(name) => name,
            None => return Err(self.error(ErrorKind::IllegalToken, Expected::Identifier, i)),
        };
        self.cursor = i + 1;
        if self.is_at(i + 1, &TokenKind::OpeningParentheses) {
            let call = self.parse_function_call(identifier)?;
            Ok(Expression::FunctionCall(call))
        } else {
            Ok(Expression::Variable(identifier))
        }
    }

    /// Parses the arguments of a call of `name`; the cursor is at `(`.
    fn parse_function_call(&mut self, name: PositionContainer<String>) -> (r: Result<
        FunctionCall,
        ParseError,
    >)
        requires
            valid(old(self)@),
            kind_at(old(self)@.tokens, old(self)@.cursor as int) == Some(TokenKind::OpeningParentheses),
        ensures
            moved_on(old(self)@, final(self)@),
            ended(final(self)@, call_list(old(self)@.tokens, old(self)@.cursor + 1int)),
            match call_list(old(self)@.tokens, old(self)@.cursor + 1int) {
                Ok((args, j)) => r matches Ok(call) && call.name == name && expressions_view(call.args@)
                    == args && j > old(self)@.cursor + 1,
                Err(err) => r == Err::<FunctionCall, _>(err),
            },
        decreases old(self)@.tokens.len() - old(self)@.cursor, 3int,
    {
        assert(self.cursor < self.tokens.len());
        self.cursor = self.cursor + 1;
        let args = self.collect_function_call_arguments()?;
        Ok(FunctionCall { name, args })
    }

    /// Parses the arguments of a call after its `(`, and the closing `)`.
    fn collect_function_call_arguments(&mut self) -> (r: Result<Vec<Expression>, ParseError>)
        requires
            valid(old(self)@),
        ensures
            moved_on(old(self)@, final(self)@),
            ended(final(self)@, call_list(old(self)@.tokens, old(self)@.cursor as int)),
            match call_list(old(self)@.tokens, old(self)@.cursor as int) {
                Ok((args, j)) => r matches Ok(v) && expressions_view(v@) == args && j > old(self)@.cursor,
                Err(err) => r == Err::<Vec<Expression>, _>(err),
            },
        decreases old(self)@.tokens.len() - old(self)@.cursor, 7int,
    {
        let ghost toks = self@.tokens;
        let ghost start = self@.cursor as int;
        let i = self.cursor;
        if self.is_at(i, &TokenKind::ClosingParentheses) {
            self.cursor = i + 1;
            return Ok(Vec::new());
        }
        let mut args: Vec<Expression> = Vec::new();
        loop
            invariant
                valid(self@),
                self@.tokens == toks,
                toks == old(self)@.tokens,
                start == old(self)@.cursor,
                start <= self@.cursor,
                call_list(toks, start) == call_arguments(
                    toks,
                    self@.cursor as int,
                    expressions_view(args@),
                ),
            decreases self@.tokens.len() - self@.cursor,
        {
            let arg = self.parse_binary_expression()?;
            proof {
                lemma_expressions_view_push(args@, arg);
            }
            args.push(arg);
            let j = self.cursor;
            if self.is_at(j, &TokenKind::ClosingParentheses) {
                self.cursor = j + 1;
                return Ok(args);
            } else if self.is_at(j, &TokenKind::Comma) {
                self.cursor = j + 1;
            } else {
                return Err(
                    self.error(ErrorKind::ExpectedSymbol, Expected::CommaOrClosingParenthesis, j),
                );
            }
        }
    }

    /// Parses an expression in parentheses; the cursor is at `(`. The parentheses leave no node.
    fn parse_parentheses(&mut self) -> (r: Result<Expression, ParseError>)
        requires
            valid(old(self)@),
            kind_at(old(self)@.tokens, old(self)@.cursor as int) == Some(TokenKind::OpeningParentheses),
        ensures
            moved_on(old(self)@, final(self)@),
            ended(final(self)@, primary(old(self)@.tokens, old(self)@.cursor as int)),
            match primary(old(self)@.tokens, old(self)@.cursor as int) {
                Ok((e, j)) => r matches Ok(v) && v@ == e && j > old(self)@.cursor,
                Err(err) => r == Err::<Expression, _>(err),
            },
        decreases old(self)@.tokens.len() - old(self)@.cursor, 4int,
    {
        assert(self.cursor < self.tokens.len());
        self.cursor = self.cursor + 1;
        let inner = self.parse_binary_expression()?;
        let j = self.cursor;
        if !self.is_at(j, &TokenKind::ClosingParentheses) {
            return Err(self.error(ErrorKind::IllegalSymbol, Expected::ClosingParenthesis, j));
        }
        self.cursor = j + 1;
        Ok(inner)
    }
    /// Parses a function definition; the cursor is at `def`.
    fn parse_function_definition(&mut self) -> (r: Result<Function, ParseError>)
        requires
            valid(old(self)@),
            kind_at(old(self)@.tokens, old(self)@.cursor as int) == Some(TokenKind::FunctionDefinition),
        ensures
            moved_on(old(self)@, final(self)@),
            ended(final(self)@, function_definition(old(self)@.tokens, old(self)@.cursor as int)),
            match function_definition(old(self)@.tokens, old(self)@.cursor as int) {
                Ok((f, j)) => r matches Ok(v) && v@ == f,
                Err(err) => r == Err::<Function, _>(err),
            },
    {
        assert(self.cursor < self.tokens.len());
        self.cursor = self.cursor + 1;
        let prototype = self.parse_function_prototype()?;
        let body = self.parse_binary_expression()?;
        Ok(Function { prototype, body })
    }

    /// Parses an external function: `extern` and a prototype; the cursor is at `extern`.
    fn parse_extern_function(&mut self) -> (r: Result<FunctionPrototype, ParseError>)
        requires
            valid(old(self)@),
            kind_at(old(self)@.tokens, old(self)@.cursor as int) == Some(TokenKind::Extern),
        ensures
            moved_on(old(self)@, final(self)@),
            ended(final(self)@, prototype(old(self)@.tokens, old(self)@.cursor + 1int)),
            match prototype(old(self)@.tokens, old(self)@.cursor + 1int) {
                Ok((p, j)) => r matches Ok(v) && v@ == p,
                Err(err) => r == Err::<FunctionPrototype, _>(err),
            },
    {
        assert(self.cursor < self.tokens.len());
        self.cursor = self.cursor + 1;
        self.parse_function_prototype()
    }

    /// Parses a top-level expression and wraps it in a function without arguments, named
    /// `__main_line_` and the line of the token after the expression.
    fn parse_top_level_expression(&mut self) -> (r: Result<Function, ParseError>)
        requires
            valid(old(self)@),
        ensures
            moved_on(old(self)@, final(self)@),
            ended(final(self)@, top_level_expression(old(self)@.tokens, old(self)@.cursor as int)),
            match top_level_expression(old(self)@.tokens, old(self)@.cursor as int) {
                Ok((f, j)) => r matches Ok(v) && v@ == f,
                Err(err) => r == Err::<Function, _>(err),
            },
    {
        let body = self.parse_binary_expression()?;
        let position = self.current_position();
        let mut name = String::from_str("__main_line_");
        append_decimal(&mut name, position.start.line);
        let prototype = FunctionPrototype {
            name: PositionContainer { value: name, position },
            args: Vec::new(),
        };
        proof {
            assert(prototype.args@ =~= Seq::<FunctionArgument>::empty());
        }
        Ok(Function { prototype, body })
    }

    /// The next top-level item: a function definition, an external prototype, or an expression
    /// wrapped in a function. Ends of statements before it are skipped. `None` when the input is
    /// used up. After an error the parser is at the end of its input, so the sequence of items ends.
    pub fn next(&mut self) -> (r: Option<Result<AstNode, ParseError>>)
        requires
            valid(old(self)@),
        ensures
            final(self)@.tokens == old(self)@.tokens,
            valid(final(self)@),
            match next_item(old(self)@.tokens, old(self)@.cursor as int) {
                Some((item, j)) => final(self)@.cursor == j && match item {
                    Ok(node) => r matches Some(Ok(v)) && v@ == node,
                    Err(err) => r == Some(Err::<AstNode, _>(err)),
                },
                None => r is None && final(self)@.cursor == old(self)@.tokens.len(),
            },
    {
        let ghost toks = self@.tokens;
        let ghost start = self@.cursor as int;
        while self.is_at(self.cursor, &TokenKind::EndOfStatement)
            invariant
                valid(self@),
                self@.tokens == toks,
                skip_ends(toks, start) == skip_ends(toks, self@.cursor as int),
            decreases self@.tokens.len() - self@.cursor,
        {
            self.cursor = self.cursor + 1;
        }
        let i = self.cursor;
        if i >= self.tokens.len() {
            return None;
        }
        let item = if self.is_at(i, &TokenKind::FunctionDefinition) {
            match self.parse_function_definition() {
                Ok(f) => Ok(AstNode::Statement(Statement::Function(f))),
                Err(e) => Err(e),
            }
        } else if self.is_at(i, &TokenKind::Extern) {
            match self.parse_extern_function() {
                Ok(p) => Ok(AstNode::Statement(Statement::FunctionPrototype(p))),
                Err(e) => Err(e),
            }
        } else {
            match self.parse_top_level_expression() {
                Ok(f) => Ok(AstNode::Statement(Statement::Function(f))),
                Err(e) => Err(e),
            }
        };
        if item.is_err() {
            self.cursor = self.tokens.len();
        }
        Some(item)
    }
}

/// Parses a variable declaration: a non-empty name, `:`, a data type, `=`, and an expression.
pub fn parse_variable_declaration(parser: &mut Parser) -> (r: Result<VariableDeclaration, ParseError>)
    requires
        valid(old(parser)@),
    ensures
        moved_on(old(parser)@, final(parser)@),
        ended(final(parser)@, variable_declaration(old(parser)@.tokens, old(parser)@.cursor as int)),
        match variable_declaration(old(parser)@.tokens, old(parser)@.cursor as int) {
            Ok((d, j)) => r matches Ok(v) && Statement::VariableDeclaration(v)@ == d,
            Err(err) => r == Err::<VariableDeclaration, _>(err),
        },
{
    let i = parser.cursor;
    let name = match parser.identifier_at(i) {
        Some(name) => name,
        None => return Err(parser.error(ErrorKind::IllegalToken, Expected::Identifier, i)),
    };
    if name.value.as_str().unicode_len() == 0 {
        return Err(parser.error(ErrorKind::IllegalToken, Expected::Identifier, i));
    }
    if !parser.is_at(i + 1, &TokenKind::Colon) {
        return Err(parser.error(ErrorKind::IllegalSymbol, Expected::Colon, i + 1));
    }
    parser.cursor = i + 2;
    let data_type = parser.parse_type()?;
    let j = parser.cursor;
    if !parser.is_at(j, &TokenKind::Equal) {
        return Err(parser.error(ErrorKind::IllegalSymbol, Expected::Equal, j));
    }
    parser.cursor = j + 1;
    let value = parser.parse_binary_expression()?;
    Ok(VariableDeclaration { name, data_type, value })
}

} // verus!
