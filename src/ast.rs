//! The abstract syntax tree.
use vstd::prelude::*;

use crate::error::{ErrorKind, Expected, ParseError};
use crate::grammar::no_position;
use crate::source::{Position, PositionRange};
use crate::token::{operator_of, TokenKind};

verus! {

/// A value together with the source range it was read from.
#[derive(Debug, Clone, PartialEq)]
pub struct PositionContainer<T> {
    pub value: T,
    pub position: PositionRange,
}

/// A type with hardware support.
#[derive(Debug, Clone, Copy, PartialEq, Eq, Structural, Hash)]
pub enum BasicDataType {
    /// An integer number, like 42.
    Int,
    /// A floating point number, like 4.2.
    Float,
}

/// A data type: basic, a struct named by the user, or a pointer to a data type.
#[derive(Debug, PartialEq)]
pub enum DataType {
    Basic(BasicDataType),
    /// A struct, referred to by name; the name is not resolved while parsing.
    Struct(String),
    Pointer(Box<PositionContainer<DataType>>),
}

/// A name and a type that specify an argument of a function in its prototype.
#[derive(Debug, PartialEq)]
pub struct FunctionArgument {
    /// The name of the argument.
    pub name: PositionContainer<String>,
    /// The type of the argument, e.g. an int, a struct or a pointer.
    pub data_type: PositionContainer<DataType>,
}

/// A user-defined collection of fields.
#[derive(Debug, PartialEq)]
pub struct Struct {
    /// The name of the struct.
    pub name: PositionContainer<String>,
    /// The fields of the struct.
    pub fields: Vec<Field>,
}

/// A name and a type that specify a field of a struct.
#[derive(Debug, PartialEq)]
pub struct Field {
    /// The name of the field.
    pub name: PositionContainer<String>,
    /// The type of the field.
    pub data_type: PositionContainer<DataType>,
}

/// A binary expression, a function call, a number or a variable.
#[derive(Debug, PartialEq)]
pub enum Expression {
    BinaryExpression(BinaryExpression),
    FunctionCall(FunctionCall),
    /// A numeric literal, held as the bit pattern of its 64-bit IEEE-754 value.
    Number(PositionContainer<u64>),
    Variable(PositionContainer<String>),
}

/// A binary expression of the form `lhs op rhs`, like `40 + 2`.
#[derive(Debug, PartialEq)]
pub struct BinaryExpression {
    /// The left hand side.
    pub lhs: Box<Expression>,
    /// The operator joining `lhs` and `rhs`.
    pub operator: PositionContainer<BinaryOperator>,
    /// The right hand side.
    pub rhs: Box<Expression>,
}

/// A call of a function with concrete arguments, like `add(2, 3)`.
#[derive(Debug, PartialEq)]
pub struct FunctionCall {
    /// The name of the called function.
    pub name: PositionContainer<String>,
    /// The argument expressions, in order.
    pub args: Vec<Expression>,
}

/// The header of a function: its name and its arguments.
#[derive(Debug, PartialEq)]
pub struct FunctionPrototype {
    pub name: PositionContainer<String>,
    pub args: Vec<FunctionArgument>,
}

/// A function definition: a prototype and a body.
#[derive(Debug, PartialEq)]
pub struct Function {
    pub prototype: FunctionPrototype,
    pub body: Expression,
}

/// `name: type = value`
#[derive(Debug, PartialEq)]
pub struct VariableDeclaration {
    pub name: PositionContainer<String>,
    pub data_type: PositionContainer<DataType>,
    pub value: Expression,
}

/// `name = value`
#[derive(Debug, PartialEq)]
pub struct VariableAssignment {
    pub name: PositionContainer<String>,
    pub value: Expression,
}

/// A statement of the language.
#[derive(Debug, PartialEq)]
pub enum Statement {
    FunctionPrototype(FunctionPrototype),
    Function(Function),
    VariableDeclaration(VariableDeclaration),
    VariableAssignment(VariableAssignment),
    Return(Expression),
}

/// A node of an abstract syntax tree: an expression or a statement.
#[derive(Debug, PartialEq)]
pub enum AstNode {
    Expression(Expression),
    Statement(Statement),
}

/// The mathematical value of an [Expression]: the same tree, with the arguments of a call as a sequence.
pub enum ExprView {
    Binary(Box<ExprView>, PositionContainer<BinaryOperator>, Box<ExprView>),
    Call(PositionContainer<String>, Seq<ExprView>),
    Number(PositionContainer<u64>),
    Variable(PositionContainer<String>),
}

/// The value of a [FunctionPrototype]. The name is held as characters, since it need not come from a token.
pub struct PrototypeView {
    pub name: Seq<char>,
    pub name_position: PositionRange,
    pub args: Seq<FunctionArgument>,
}

/// The value of a [Function].
pub struct FunctionView {
    pub prototype: PrototypeView,
    pub body: ExprView,
}

/// The value of a [Statement].
pub enum StatementView {
    FunctionPrototype(PrototypeView),
    Function(FunctionView),
    VariableDeclaration(PositionContainer<String>, PositionContainer<DataType>, ExprView),
    VariableAssignment(PositionContainer<String>, ExprView),
    Return(ExprView),
}

/// The value of an [AstNode].
pub enum NodeView {
    Expression(ExprView),
    Statement(StatementView),
}

/// The value of an expression.
pub open spec fn expression_view(e: Expression) -> ExprView
    decreases e,
{
    match e {
        Expression::BinaryExpression(b) => ExprView::Binary(
            Box::new(expression_view(*b.lhs)),
            b.operator,
            Box::new(expression_view(*b.rhs)),
        ),
        Expression::FunctionCall(c) => ExprView::Call(c.name, expressions_view(c.args@)),
        Expression::Number(n) => ExprView::Number(n),
        Expression::Variable(v) => ExprView::Variable(v),
    }
}

/// The values of a sequence of expressions, in order.
pub open spec fn expressions_view(s: Seq<Expression>) -> Seq<ExprView>
    decreases s,
{
    if s.len() == 0 {
        Seq::empty()
    } else {
        expressions_view(s.drop_last()).push(expression_view(s.last()))
    }
}

/// Appending an expression appends its value.
pub proof fn lemma_expressions_view_push(s: Seq<Expression>, e: Expression)
    ensures
        expressions_view(s.push(e)) == expressions_view(s).push(expression_view(e)),
{
    assert(s.push(e).drop_last() =~= s);
}

impl View for Expression {
    type V = ExprView;

    open spec fn view(&self) -> ExprView {
        expression_view(*self)
    }
}

impl View for FunctionPrototype {
    type V = PrototypeView;

    open spec fn view(&self) -> PrototypeView {
        PrototypeView { name: self.name.value@, name_position: self.name.position, args: self.args@ }
    }
}

impl View for Function {
    type V = FunctionView;

    open spec fn view(&self) -> FunctionView {
        FunctionView { prototype: self.prototype@, body: self.body@ }
    }
}

impl View for Statement {
    type V = StatementView;

    open spec fn view(&self) -> StatementView {
        match self {
            Statement::FunctionPrototype(p) => StatementView::FunctionPrototype(p@),
            Statement::Function(f) => StatementView::Function(f@),
            Statement::VariableDeclaration(d) => StatementView::VariableDeclaration(
                d.name,
                d.data_type,
                d.value@,
            ),
            Statement::VariableAssignment(a) => StatementView::VariableAssignment(a.name, a.value@),
            Statement::Return(e) => StatementView::Return(e@),
        }
    }
}

impl View for AstNode {
    type V = NodeView;

    open spec fn view(&self) -> NodeView {
        match self {
            AstNode::Expression(e) => NodeView::Expression(e@),
            AstNode::Statement(s) => NodeView::Statement(s@),
        }
    }
}

/// The basic type that a type name denotes, if any.
pub open spec fn basic_type_named(name: Seq<char>) -> Option<BasicDataType> {
    if name == "int"@ {
        Some(BasicDataType::Int)
    } else if name == "float"@ {
        Some(BasicDataType::Float)
    } else {
        None
    }
}

impl BasicDataType {
    /// The basic type named `data_type` (`int` or `float`), or `Err` for any other name.
    pub fn try_from(data_type: &str) -> (r: Result<BasicDataType, ()>)
        ensures
            match basic_type_named(data_type@) {
                Some(t) => r == Ok::<BasicDataType, ()>(t),
                None => r.is_err(),
            },
    {
        proof {
            reveal_strlit("int");
            reveal_strlit("float");
        }
        let n = data_type.unicode_len();
        if n == 3 && data_type.get_char(0) == 'i' && data_type.get_char(1) == 'n' && data_type.get_char(
            2,
        ) == 't' {
            assert(data_type@ =~= "int"@);
            Ok(BasicDataType::Int)
        } else if n == 5 && data_type.get_char(0) == 'f' && data_type.get_char(1) == 'l'
            && data_type.get_char(2) == 'o' && data_type.get_char(3) == 'a' && data_type.get_char(4)
            == 't' {
            assert(data_type@ =~= "float"@);
            Ok(BasicDataType::Float)
        } else {
            Err(())
        }
    }
}

/// An operator that joins a left and a right hand side.
#[derive(Debug, Clone, Copy, PartialEq, Eq, Structural, Hash)]
pub enum BinaryOperator {
    /// `<`
    Less,
    /// `>`
    Greater,
    /// `+`
    Add,
    /// `-`
    Subtract,
    /// `*`
    Multiply,
    /// `/`
    Divide,
}

impl BinaryOperator {
    /// Comparisons bind weakest, then addition and subtraction, then multiplication and division.
    pub open spec fn precedence_spec(self) -> u8 {
        match self {
            BinaryOperator::Less | BinaryOperator::Greater => 10,
            BinaryOperator::Add | BinaryOperator::Subtract => 20,
            BinaryOperator::Multiply | BinaryOperator::Divide => 30,
        }
    }

    /// How strongly this operator binds its operands.
    pub fn precedence(&self) -> (r: u8)
        ensures
            r == self.precedence_spec(),
    {
        match self {
            BinaryOperator::Less | BinaryOperator::Greater => 10,
            BinaryOperator::Add | BinaryOperator::Subtract => 20,
            BinaryOperator::Multiply | BinaryOperator::Divide => 30,
        }
    }

    /// The operator that `token_kind` denotes, or an [ErrorKind::IllegalToken] error if it
    /// denotes none. The error carries no position: the caller knows where the token stands.
    pub fn try_from(token_kind: &TokenKind) -> (r: Result<BinaryOperator, ParseError>)
        ensures
            match operator_of(*token_kind) {
                Some(op) => r == Ok::<BinaryOperator, ParseError>(op),
                None => r == Err::<BinaryOperator, ParseError>(
                    ParseError {
                        kind: ErrorKind::IllegalToken,
                        expected: Expected::BinaryOperator,
                        position: no_position(),
                    },
                ),
            },
    {
        match token_kind {
            TokenKind::Plus => Ok(BinaryOperator::Add),
            TokenKind::Minus => Ok(BinaryOperator::Subtract),
            TokenKind::Star => Ok(BinaryOperator::Multiply),
            TokenKind::Slash => Ok(BinaryOperator::Divide),
            TokenKind::Less => Ok(BinaryOperator::Less),
            TokenKind::Greater => Ok(BinaryOperator::Greater),
            _ => {
                let none = Position { line: 0, column: 0, offset: 0 };
                Err(
                    ParseError {
                        kind: ErrorKind::IllegalToken,
                        expected: Expected::BinaryOperator,
                        position: PositionRange { start: none, end: none },
                    },
                )
            },
        }
    }
}

/// The ordering of two numbers.
pub open spec fn compare_u8(a: u8, b: u8) -> core::cmp::Ordering {
    if a < b {
        core::cmp::Ordering::Less
    } else if a == b {
        core::cmp::Ordering::Equal
    } else {
        core::cmp::Ordering::Greater
    }
}

/// Operators are ordered by precedence.
impl PartialOrd for BinaryOperator {
    fn partial_cmp(&self, other: &BinaryOperator) -> (r: Option<core::cmp::Ordering>) {
        let a = self.precedence();
        let b = other.precedence();
        if a < b {
            Some(core::cmp::Ordering::Less)
        } else if a == b {
            Some(core::cmp::Ordering::Equal)
        } else {
            Some(core::cmp::Ordering::Greater)
        }
    }
}

impl vstd::std_specs::cmp::PartialOrdSpecImpl for BinaryOperator {
    open spec fn obeys_partial_cmp_spec() -> bool {
        true
    }

    open spec fn partial_cmp_spec(&self, other: &BinaryOperator) -> Option<core::cmp::Ordering> {
        Some(compare_u8(self.precedence_spec(), other.precedence_spec()))
    }
}

/// True when `min_operator` is set and `operator` binds less strongly than it.
pub fn operator_has_too_less_precedence(
    operator: &BinaryOperator,
    min_operator: &Option<BinaryOperator>,
) -> (r: bool)
    ensures
        r == match *min_operator {
            Some(m) => operator.precedence_spec() < m.precedence_spec(),
            None => false,
        },
{
    match min_operator {
        Some(min_op) => operator.precedence() < min_op.precedence(),
        None => false,
    }
}

} // verus!
