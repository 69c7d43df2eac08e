//! Printing expressions back as tokens.
use vstd::prelude::*;

use crate::ast::{
    expression_view, expressions_view, BinaryOperator, ExprView, Expression,
};
use crate::source::PositionRange;
use crate::token::{Token, TokenKind};

verus! {

/// The token kind of an operator.
pub open spec fn operator_kind(op: BinaryOperator) -> TokenKind {
    match op {
        BinaryOperator::Less => TokenKind::Less,
        BinaryOperator::Greater => TokenKind::Greater,
        BinaryOperator::Add => TokenKind::Plus,
        BinaryOperator::Subtract => TokenKind::Minus,
        BinaryOperator::Multiply => TokenKind::Star,
        BinaryOperator::Divide => TokenKind::Slash,
    }
}

pub open spec fn token(kind: TokenKind, position: PositionRange) -> Token {
    Token { kind, position }
}

/// A range that stands for a node: that of its operator, of its called name, or of its token.
pub open spec fn node_position(e: ExprView) -> PositionRange {
    match e {
        ExprView::Binary(_, op, _) => op.position,
        ExprView::Call(name, _) => name.position,
        ExprView::Number(n) => n.position,
        ExprView::Variable(v) => v.position,
    }
}

/// The tokens of an expression, printed with every operand that is itself a binary expression in
/// parentheses. Each token carries the range of the node it comes from; a parenthesis or a comma
/// carries the range of the node before it or around it.
pub open spec fn tokens_of(e: ExprView) -> Seq<Token>
    decreases e,
{
    match e {
        ExprView::Binary(l, op, r) => {
            let left = if *l is Binary {
                seq![token(TokenKind::OpeningParentheses, node_position(*l))] + tokens_of(*l)
                    + seq![token(TokenKind::ClosingParentheses, node_position(*l))]
            } else {
                tokens_of(*l)
            };
            let right = if *r is Binary {
                seq![token(TokenKind::OpeningParentheses, node_position(*r))] + tokens_of(*r)
                    + seq![token(TokenKind::ClosingParentheses, node_position(*r))]
            } else {
                tokens_of(*r)
            };
            left + seq![token(operator_kind(op.value), op.position)] + right
        },
        ExprView::Call(name, args) => seq![
            token(TokenKind::Identifier(name.value), name.position),
            token(TokenKind::OpeningParentheses, name.position),
        ] + arguments_tokens(args) + seq![token(TokenKind::ClosingParentheses, name.position)],
        ExprView::Number(n) => seq![token(TokenKind::Number(n.value), n.position)],
        ExprView::Variable(v) => seq![token(TokenKind::Identifier(v.value), v.position)],
    }
}

/// The tokens of a list of call arguments, separated by commas.
pub open spec fn arguments_tokens(args: Seq<ExprView>) -> Seq<Token>
    decreases args,
{
    if args.len() == 0 {
        Seq::empty()
    } else if args.len() == 1 {
        tokens_of(args[0])
    } else {
        tokens_of(args[0]) + seq![token(TokenKind::Comma, node_position(args[0]))]
            + arguments_tokens(args.drop_first())
    }
}

/// The tokens of `e` as an operand: in parentheses if it is a binary expression.
pub open spec fn operand_tokens(e: ExprView) -> Seq<Token> {
    if e is Binary {
        seq![token(TokenKind::OpeningParentheses, node_position(e))] + tokens_of(e) + seq![
            token(TokenKind::ClosingParentheses, node_position(e)),
        ]
    } else {
        tokens_of(e)
    }
}

/// The values of a sequence of expressions, one by one.
proof fn lemma_expressions_view_index(s: Seq<Expression>)
    ensures
        expressions_view(s).len() == s.len(),
        forall|k: int| 0 <= k < s.len() ==> #[trigger] expressions_view(s)[k] == expression_view(s[k]),
    decreases s.len(),
{
    if s.len() > 0 {
        lemma_expressions_view_index(s.drop_last());
    }
}

/// Appending an argument appends a comma and its tokens.
proof fn lemma_arguments_tokens_push(s: Seq<ExprView>, x: ExprView)
    requires
        s.len() > 0,
    ensures
        arguments_tokens(s.push(x)) == arguments_tokens(s) + seq![
            token(TokenKind::Comma, node_position(s.last())),
        ] + tokens_of(x),
    decreases s.len(),
{
    let t = s.push(x);
    let comma = seq![token(TokenKind::Comma, node_position(s.last()))];
    assert(t[0] == s[0]);
    if s.len() == 1 {
        assert(t.drop_first() =~= seq![x]);
        assert(seq![x][0] == x);
        assert(arguments_tokens(seq![x]) == tokens_of(x));
        assert(arguments_tokens(s) == tokens_of(s[0]));
    } else {
        let rest = s.drop_first();
        assert(t.drop_first() =~= rest.push(x));
        assert(rest.last() == s.last());
        lemma_arguments_tokens_push(rest, x);
        let head = tokens_of(s[0]) + seq![token(TokenKind::Comma, node_position(s[0]))];
        assert(arguments_tokens(s) == head + arguments_tokens(rest));
        assert(arguments_tokens(t) == head + arguments_tokens(rest.push(x)));
        assert(head + (arguments_tokens(rest) + comma + tokens_of(x)) =~= head + arguments_tokens(rest)
            + comma + tokens_of(x));
    }
}

impl BinaryOperator {
    /// The token kind that denotes this operator.
    pub fn token_kind(&self) -> (r: TokenKind)
        ensures
            r == operator_kind(*self),
    {
        match self {
            BinaryOperator::Less => TokenKind::Less,
            BinaryOperator::Greater => TokenKind::Greater,
            BinaryOperator::Add => TokenKind::Plus,
            BinaryOperator::Subtract => TokenKind::Minus,
            BinaryOperator::Multiply => TokenKind::Star,
            BinaryOperator::Divide => TokenKind::Slash,
        }
    }
}

impl Expression {
    /// The range that stands for this node: that of its operator, of its called name, or of its
    /// token.
    pub fn node_position(&self) -> (r: PositionRange)
        ensures
            r == node_position(self@),
    {
        match self {
            Expression::BinaryExpression(b) => b.operator.position,
            Expression::FunctionCall(c) => c.name.position,
            Expression::Number(n) => n.position,
            Expression::Variable(v) => v.position,
        }
    }

    /// The tokens of this expression, with every operand that is itself a binary expression in
    /// parentheses.
    pub fn to_tokens(&self) -> (r: Vec<Token>)
        ensures
            r@ == tokens_of(self@),
    {
        let mut out: Vec<Token> = Vec::new();
        self.append_tokens(&mut out);
        assert(out@ =~= tokens_of(self@));
        out
    }

    /// Appends the tokens of this expression as an operand: in parentheses if it is binary.
    fn append_operand_tokens(&self, out: &mut Vec<Token>)
        ensures
            final(out)@ == old(out)@ + operand_tokens(self@),
        decreases self, 1int,
    {
        if matches!(self, Expression::BinaryExpression(_)) {
            let position = self.node_position();
            out.push(Token { kind: TokenKind::OpeningParentheses, position });
            self.append_tokens(out);
            out.push(Token { kind: TokenKind::ClosingParentheses, position });
            assert(final(out)@ =~= old(out)@ + operand_tokens(self@));
        } else {
            self.append_tokens(out);
        }
    }

    fn append_tokens(&self, out: &mut Vec<Token>)
        ensures
            final(out)@ == old(out)@ + tokens_of(self@),
        decreases self, 0int,
    {
        let ghost start = out@;
        match self {
            Expression::BinaryExpression(b) => {
                b.lhs.append_operand_tokens(out);
                out.push(Token { kind: b.operator.value.token_kind(), position: b.operator.position });
                b.rhs.append_operand_tokens(out);
                assert(out@ =~= start + tokens_of(self@));
            },
            Expression::FunctionCall(c) => {
                let ghost args = expressions_view(c.args@);
                proof {
                    lemma_expressions_view_index(c.args@);
                }
                out.push(Token { kind: TokenKind::Identifier(c.name.value.clone()), position: c.name.position });
                out.push(Token { kind: TokenKind::OpeningParentheses, position: c.name.position });
                let ghost head = out@;
                assert(decreases_to!(*self => c.args));
                let mut k: usize = 0;
                while k < c.args.len()
                    invariant
                        k <= c.args@.len(),
                        args == expressions_view(c.args@),
                        decreases_to!(*self => c.args),
                        args.len() == c.args@.len(),
                        forall|m: int| 0 <= m < c.args@.len() ==> #[trigger] args[m] == expression_view(c.args@[m]),
                        out@ == head + arguments_tokens(args.take(k as int)),
                    decreases c.args@.len() - k,
                {
                    if k > 0 {
                        out.push(Token { kind: TokenKind::Comma, position: c.args[k - 1].node_position() });
                    }
                    proof {
                        assert(decreases_to!(c.args => c.args[k as int]));
                        assert(decreases_to!(*self => c.args[k as int]));
                    }
                    c.args[k].append_tokens(out);
                    proof {
                        assert(args.take(k + 1) =~= args.take(k as int).push(args[k as int]));
                        if k == 0 {
                            assert(args.take(1) =~= seq![args[0]]);
                            assert(args.take(0) =~= Seq::<ExprView>::empty());
                        } else {
                            lemma_arguments_tokens_push(args.take(k as int), args[k as int]);
                        }
                    }
                    assert(out@ =~= head + arguments_tokens(args.take(k + 1)));
                    k = k + 1;
                }
                out.push(Token { kind: TokenKind::ClosingParentheses, position: c.name.position });
                assert(args.take(c.args@.len() as int) =~= args);
                assert(out@ =~= start + tokens_of(self@));
            },
            Expression::Number(n) => {
                out.push(Token { kind: TokenKind::Number(n.value), position: n.position });
                assert(out@ =~= start + tokens_of(self@));
            },
            Expression::Variable(v) => {
                out.push(Token { kind: TokenKind::Identifier(v.value.clone()), position: v.position });
                assert(out@ =~= start + tokens_of(self@));
            },
        }
    }
}

} // verus!
