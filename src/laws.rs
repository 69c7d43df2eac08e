//! Properties of the grammar that relate several of its parts.
use vstd::prelude::*;

use crate::ast::{BinaryOperator, ExprView, PositionContainer};
use crate::error::ParseError;
use crate::grammar::{
    above, advances, call_arguments, call_list, climb, expression, kind_at, operator_at, position_at,
    primary, Parsed,
};
use crate::print::{arguments_tokens, node_position, operand_tokens, operator_kind, token, tokens_of};
use crate::token::{operator_of, Token, TokenKind};

verus! {

/// The expression that a single number or identifier token stands for, if it is one.
pub open spec fn operand_of(t: Token) -> Option<ExprView> {
    match t.kind {
        TokenKind::Number(v) => Some(ExprView::Number(PositionContainer { value: v, position: t.position })),
        TokenKind::Identifier(name) => Some(
            ExprView::Variable(PositionContainer { value: name, position: t.position }),
        ),
        _ => None,
    }
}

/// The operator of token `t`, with the token's range. Meaningful when `t` is an operator.
pub open spec fn operator_token(t: Token) -> PositionContainer<BinaryOperator> {
    PositionContainer { value: operator_of(t.kind)->Some_0, position: t.position }
}

pub open spec fn binary(l: ExprView, op: PositionContainer<BinaryOperator>, r: ExprView) -> ExprView {
    ExprView::Binary(Box::new(l), op, Box::new(r))
}

/// In `a op1 b op2 c`, with plain operands, the operator of higher precedence takes the operand
/// between them; at equal precedence the left operator takes it, so equal operators group from the
/// left. All five tokens are consumed.
pub proof fn lemma_precedence(toks: Seq<Token>)
    requires
        toks.len() == 5,
        operand_of(toks[0]) is Some,
        operand_of(toks[2]) is Some,
        operand_of(toks[4]) is Some,
        operator_of(toks[1].kind) is Some,
        operator_of(toks[3].kind) is Some,
    ensures
        ({
            let a = operand_of(toks[0])->Some_0;
            let b = operand_of(toks[2])->Some_0;
            let c = operand_of(toks[4])->Some_0;
            let op1 = operator_token(toks[1]);
            let op2 = operator_token(toks[3]);
            expression(toks, 0) == Ok::<(ExprView, int), ParseError>(
                (
                    if op2.value.precedence_spec() > op1.value.precedence_spec() {
                        binary(a, op1, binary(b, op2, c))
                    } else {
                        binary(binary(a, op1, b), op2, c)
                    },
                    5,
                ),
            )
        }),
{
    let a = operand_of(toks[0])->Some_0;
    let b = operand_of(toks[2])->Some_0;
    let c = operand_of(toks[4])->Some_0;
    let op1 = operator_token(toks[1]);
    let op2 = operator_token(toks[3]);
    assert(kind_at(toks, 1) != Some(TokenKind::OpeningParentheses));
    assert(kind_at(toks, 3) != Some(TokenKind::OpeningParentheses));
    assert(primary(toks, 0) == Ok::<(ExprView, int), ParseError>((a, 1)));
    assert(primary(toks, 2) == Ok::<(ExprView, int), ParseError>((b, 3)));
    assert(primary(toks, 4) == Ok::<(ExprView, int), ParseError>((c, 5)));
    assert(operator_at(toks, 5) is None);
    if op2.value.precedence_spec() > op1.value.precedence_spec() {
        let bc = binary(b, op2, c);
        assert(climb(toks, Some(op1.value), bc, 5) == Ok::<(ExprView, int), ParseError>((bc, 5)));
        assert(climb(toks, Some(op1.value), b, 3) == Ok::<(ExprView, int), ParseError>((bc, 5)));
        assert(climb(toks, None, binary(a, op1, bc), 5) == Ok::<(ExprView, int), ParseError>((binary(a, op1, bc), 5)));
        assert(climb(toks, None, a, 1) == Ok::<(ExprView, int), ParseError>((binary(a, op1, bc), 5)));
    } else {
        let ab = binary(a, op1, b);
        let abc = binary(ab, op2, c);
        assert(climb(toks, None, abc, 5) == Ok::<(ExprView, int), ParseError>((abc, 5)));
        assert(climb(toks, None, ab, 3) == Ok::<(ExprView, int), ParseError>((abc, 5)));
        assert(climb(toks, None, a, 1) == Ok::<(ExprView, int), ParseError>((abc, 5)));
    }
}


/// In `( a op1 b ) op2 c`, with plain operands, the parenthesized operation is the left operand of
/// `op2`, whatever the precedences. All seven tokens are consumed.
pub proof fn lemma_parentheses(toks: Seq<Token>)
    requires
        toks.len() == 7,
        toks[0].kind == TokenKind::OpeningParentheses,
        operand_of(toks[1]) is Some,
        operator_of(toks[2].kind) is Some,
        operand_of(toks[3]) is Some,
        toks[4].kind == TokenKind::ClosingParentheses,
        operator_of(toks[5].kind) is Some,
        operand_of(toks[6]) is Some,
    ensures
        expression(toks, 0) == Ok::<(ExprView, int), ParseError>(
            (
                binary(
                    binary(
                        operand_of(toks[1])->Some_0,
                        operator_token(toks[2]),
                        operand_of(toks[3])->Some_0,
                    ),
                    operator_token(toks[5]),
                    operand_of(toks[6])->Some_0,
                ),
                7,
            ),
        ),
{
    let a = operand_of(toks[1])->Some_0;
    let b = operand_of(toks[3])->Some_0;
    let c = operand_of(toks[6])->Some_0;
    let ab = binary(a, operator_token(toks[2]), b);
    let abc = binary(ab, operator_token(toks[5]), c);
    assert(kind_at(toks, 2) != Some(TokenKind::OpeningParentheses));
    assert(kind_at(toks, 4) != Some(TokenKind::OpeningParentheses));
    assert(kind_at(toks, 7) is None);
    assert(primary(toks, 1) == Ok::<(ExprView, int), ParseError>((a, 2)));
    assert(primary(toks, 3) == Ok::<(ExprView, int), ParseError>((b, 4)));
    assert(primary(toks, 6) == Ok::<(ExprView, int), ParseError>((c, 7)));
    assert(operator_at(toks, 4) is None);
    assert(climb(toks, None, ab, 4) == Ok::<(ExprView, int), ParseError>((ab, 4)));
    assert(climb(toks, None, a, 2) == Ok::<(ExprView, int), ParseError>((ab, 4)));
    assert(primary(toks, 0) == Ok::<(ExprView, int), ParseError>((ab, 5)));
    assert(climb(toks, None, abc, 7) == Ok::<(ExprView, int), ParseError>((abc, 7)));
    assert(climb(toks, None, ab, 5) == Ok::<(ExprView, int), ParseError>((abc, 7)));
}

/// `toks` holds `s` from index `i` on.
pub open spec fn holds(toks: Seq<Token>, i: int, s: Seq<Token>) -> bool {
    0 <= i && i + s.len() <= toks.len() && toks.subrange(i, i + s.len()) == s
}

/// Index `j` holds neither an operator nor `(`: nothing there continues an expression.
pub open spec fn stops(toks: Seq<Token>, j: int) -> bool {
    operator_at(toks, j) is None && kind_at(toks, j) != Some(TokenKind::OpeningParentheses)
}

proof fn lemma_holds_split(toks: Seq<Token>, i: int, a: Seq<Token>, b: Seq<Token>)
    requires
        holds(toks, i, a + b),
    ensures
        holds(toks, i, a),
        holds(toks, i + a.len(), b),
{
    let whole = toks.subrange(i, i + a.len() + b.len());
    assert(whole == a + b);
    assert(toks.subrange(i, i + a.len()) =~= whole.subrange(0, a.len() as int));
    assert(whole.subrange(0, a.len() as int) =~= a);
    assert(toks.subrange(i + a.len(), i + a.len() + b.len()) =~= whole.subrange(
        a.len() as int,
        whole.len() as int,
    ));
    assert(whole.subrange(a.len() as int, whole.len() as int) =~= b);
}

proof fn lemma_holds_at(toks: Seq<Token>, i: int, s: Seq<Token>, k: int)
    requires
        holds(toks, i, s),
        0 <= k < s.len(),
    ensures
        toks[i + k] == s[k],
        kind_at(toks, i + k) == Some(s[k].kind),
{
    assert(toks.subrange(i, i + s.len())[k] == toks[i + k]);
}

/// Printed expressions are never empty and never start with `)`.
proof fn lemma_first_token(e: ExprView)
    ensures
        tokens_of(e).len() > 0,
        tokens_of(e)[0].kind != TokenKind::ClosingParentheses,
        operand_tokens(e).len() > 0,
        operand_tokens(e)[0].kind != TokenKind::ClosingParentheses,
    decreases e,
{
    if let ExprView::Binary(l, op, r) = e {
        lemma_first_token(*l);
        assert(tokens_of(e) == operand_tokens(*l) + seq![token(operator_kind(op.value), op.position)]
            + operand_tokens(*r));
    }
}

proof fn lemma_primary_round_trip(toks: Seq<Token>, i: int, e: ExprView)
    requires
        holds(toks, i, operand_tokens(e)),
        kind_at(toks, i + operand_tokens(e).len()) != Some(TokenKind::OpeningParentheses),
    ensures
        primary(toks, i) == Ok::<(ExprView, int), ParseError>((e, i + operand_tokens(e).len())),
    decreases e, if e is Binary { 1int } else { 0int },
{
    let t = operand_tokens(e);
    lemma_first_token(e);
    lemma_holds_at(toks, i, t, 0);
    match e {
        ExprView::Binary(_, _, _) => {
            let inner = tokens_of(e);
            let open = seq![token(TokenKind::OpeningParentheses, node_position(e))];
            let close = seq![token(TokenKind::ClosingParentheses, node_position(e))];
            lemma_holds_split(toks, i, open + inner, close);
            lemma_holds_split(toks, i, open, inner);
            lemma_holds_at(toks, i + 1 + inner.len(), close, 0);
            lemma_expression_round_trip(toks, i + 1, e);
        },
        ExprView::Call(name, args) => {
            lemma_holds_at(toks, i, t, 1);
            let head = seq![
                token(TokenKind::Identifier(name.value), name.position),
                token(TokenKind::OpeningParentheses, name.position),
            ];
            let a = arguments_tokens(args);
            let close = seq![token(TokenKind::ClosingParentheses, name.position)];
            lemma_holds_split(toks, i, head + a, close);
            lemma_holds_split(toks, i, head, a);
            lemma_holds_at(toks, i + 2 + a.len(), close, 0);
            if args.len() == 0 {
                assert(args =~= Seq::<ExprView>::empty());
                assert(call_list(toks, i + 2) == Ok::<(Seq<ExprView>, int), ParseError>((args, i + 3)));
            } else {
                lemma_first_token(args[0]);
                if args.len() > 1 {
                    assert(a == tokens_of(args[0]) + (seq![token(TokenKind::Comma, node_position(args[0]))]
                        + arguments_tokens(args.drop_first())));
                }
                assert(a[0] == tokens_of(args[0])[0]);
                lemma_holds_at(toks, i + 2, a, 0);
                lemma_arguments_round_trip(toks, i + 2, args, Seq::empty());
                assert(Seq::<ExprView>::empty() + args =~= args);
            }
        },
        _ => {},
    }
}

proof fn lemma_expression_round_trip(toks: Seq<Token>, i: int, e: ExprView)
    requires
        holds(toks, i, tokens_of(e)),
        stops(toks, i + tokens_of(e).len()),
    ensures
        expression(toks, i) == Ok::<(ExprView, int), ParseError>((e, i + tokens_of(e).len())),
    decreases e, if e is Binary { 0int } else { 1int },
{
    let end = i + tokens_of(e).len();
    lemma_first_token(e);
    match e {
        ExprView::Binary(l, op, r) => {
            let left = operand_tokens(*l);
            let o = seq![token(operator_kind(op.value), op.position)];
            let right = operand_tokens(*r);
            assert(tokens_of(e) == left + o + right);
            lemma_holds_split(toks, i, left + o, right);
            lemma_holds_split(toks, i, left, o);
            lemma_holds_at(toks, i + left.len(), o, 0);
            lemma_first_token(*l);
            lemma_first_token(*r);
            lemma_primary_round_trip(toks, i, *l);
            lemma_primary_round_trip(toks, i + left.len() + 1, *r);
            let j = i + left.len();
            assert(operator_at(toks, j) == Some(op.value));
            assert(climb(toks, None, e, end) == Ok::<(ExprView, int), ParseError>((e, end)));
            assert(climb(toks, None, *l, j) == Ok::<(ExprView, int), ParseError>((e, end)));
        },
        _ => {
            lemma_primary_round_trip(toks, i, e);
            assert(climb(toks, None, e, end) == Ok::<(ExprView, int), ParseError>((e, end)));
        },
    }
}

proof fn lemma_arguments_round_trip(toks: Seq<Token>, i: int, args: Seq<ExprView>, acc: Seq<ExprView>)
    requires
        args.len() >= 1,
        holds(toks, i, arguments_tokens(args)),
        kind_at(toks, i + arguments_tokens(args).len()) == Some(TokenKind::ClosingParentheses),
    ensures
        call_arguments(toks, i, acc) == Ok::<(Seq<ExprView>, int), ParseError>(
            (acc + args, i + arguments_tokens(args).len() + 1),
        ),
    decreases args,
{
    let first = tokens_of(args[0]);
    let j = i + first.len();
    lemma_first_token(args[0]);
    if args.len() == 1 {
        lemma_expression_round_trip(toks, i, args[0]);
        assert(acc.push(args[0]) =~= acc + args);
    } else {
        let comma = seq![token(TokenKind::Comma, node_position(args[0]))];
        let rest = arguments_tokens(args.drop_first());
        assert(arguments_tokens(args) == first + comma + rest);
        lemma_holds_split(toks, i, first + comma, rest);
        lemma_holds_split(toks, i, first, comma);
        lemma_holds_at(toks, j, comma, 0);
        lemma_expression_round_trip(toks, i, args[0]);
        lemma_arguments_round_trip(toks, j + 1, args.drop_first(), acc.push(args[0]));
        assert(acc.push(args[0]) + args.drop_first() =~= acc + args);
    }
}

/// Printing an expression as tokens (what `Expression::to_tokens` returns) and parsing them gives
/// back the same expression, ranges included, and consumes every token.
pub proof fn lemma_round_trip(e: ExprView)
    ensures
        expression(tokens_of(e), 0) == Ok::<(ExprView, int), ParseError>((e, tokens_of(e).len() as int)),
{
    let t = tokens_of(e);
    assert(t.subrange(0, t.len() as int) =~= t);
    lemma_expression_round_trip(t, 0, e);
}


/// The single token of an operator, with the operator's range.
pub open spec fn operator_tokens(op: PositionContainer<BinaryOperator>) -> Seq<Token> {
    seq![token(operator_kind(op.value), op.position)]
}

/// `op1 b op2 c`, each operand printed as an operand: in parentheses if it is binary.
pub open spec fn chain_tokens(
    op1: PositionContainer<BinaryOperator>,
    b: ExprView,
    op2: PositionContainer<BinaryOperator>,
    c: ExprView,
) -> Seq<Token> {
    operator_tokens(op1) + operand_tokens(b) + operator_tokens(op2) + operand_tokens(c)
}

/// `a op1 b op2 c` grouped by precedence: `op2` takes `b` when it binds more strongly than `op1`,
/// else `op1` takes it.
pub open spec fn grouped(
    a: ExprView,
    op1: PositionContainer<BinaryOperator>,
    b: ExprView,
    op2: PositionContainer<BinaryOperator>,
    c: ExprView,
) -> ExprView {
    if op2.value.precedence_spec() > op1.value.precedence_spec() {
        binary(a, op1, binary(b, op2, c))
    } else {
        binary(binary(a, op1, b), op2, c)
    }
}

/// Precedence climbing from an operand `a`, with `op1 b op2 c` after it and nothing more, and any
/// operands: the operator of higher precedence takes `b`, and at equal precedence `op1` takes it,
/// so equal operators group from the left. A binary operand stands in parentheses and stays whole.
pub proof fn lemma_climb_precedence(
    pre: Seq<Token>,
    a: ExprView,
    op1: PositionContainer<BinaryOperator>,
    b: ExprView,
    op2: PositionContainer<BinaryOperator>,
    c: ExprView,
)
    ensures
        ({
            let toks = pre + chain_tokens(op1, b, op2, c);
            climb(toks, None, a, pre.len() as int) == Ok::<(ExprView, int), ParseError>(
                (grouped(a, op1, b, op2, c), toks.len() as int),
            )
        }),
{
    let o1 = operator_tokens(op1);
    let bt = operand_tokens(b);
    let o2 = operator_tokens(op2);
    let ct = operand_tokens(c);
    let rest = chain_tokens(op1, b, op2, c);
    let toks = pre + rest;
    let i = pre.len() as int;
    let end = toks.len() as int;
    assert(toks.subrange(i, i + rest.len()) =~= rest);
    lemma_holds_split(toks, i, o1 + bt + o2, ct);
    lemma_holds_split(toks, i, o1 + bt, o2);
    lemma_holds_split(toks, i, o1, bt);
    lemma_holds_at(toks, i, o1, 0);
    let k = i + 1 + bt.len();
    lemma_holds_at(toks, k, o2, 0);
    assert(kind_at(toks, end) is None);
    lemma_primary_round_trip(toks, i + 1, b);
    lemma_primary_round_trip(toks, k + 1, c);
    assert(operator_at(toks, i) == Some(op1.value));
    assert(operator_at(toks, k) == Some(op2.value));
    assert(operator_at(toks, end) is None);
    if op2.value.precedence_spec() > op1.value.precedence_spec() {
        let bc = binary(b, op2, c);
        assert(climb(toks, Some(op1.value), bc, end) == Ok::<(ExprView, int), ParseError>((bc, end)));
        assert(climb(toks, Some(op1.value), b, k) == Ok::<(ExprView, int), ParseError>((bc, end)));
        let abc = binary(a, op1, bc);
        assert(climb(toks, None, abc, end) == Ok::<(ExprView, int), ParseError>((abc, end)));
    } else {
        let ab = binary(a, op1, b);
        let abc = binary(ab, op2, c);
        assert(climb(toks, None, abc, end) == Ok::<(ExprView, int), ParseError>((abc, end)));
        assert(climb(toks, None, ab, k) == Ok::<(ExprView, int), ParseError>((abc, end)));
    }
}

/// `a op1 b op2 c`, with any operands, parses as [grouped] says: the operator of higher
/// precedence takes `b`; at equal precedence the left one does. All tokens are consumed.
pub proof fn lemma_expression_precedence(
    a: ExprView,
    op1: PositionContainer<BinaryOperator>,
    b: ExprView,
    op2: PositionContainer<BinaryOperator>,
    c: ExprView,
)
    ensures
        ({
            let toks = operand_tokens(a) + chain_tokens(op1, b, op2, c);
            expression(toks, 0) == Ok::<(ExprView, int), ParseError>(
                (grouped(a, op1, b, op2, c), toks.len() as int),
            )
        }),
{
    let at = operand_tokens(a);
    let rest = chain_tokens(op1, b, op2, c);
    let toks = at + rest;
    assert(toks.subrange(0, toks.len() as int) =~= toks);
    lemma_holds_split(toks, 0, at, rest);
    lemma_first_token(a);
    assert(rest[0] == operator_tokens(op1)[0]);
    lemma_holds_at(toks, at.len() as int, rest, 0);
    lemma_primary_round_trip(toks, 0, a);
    lemma_climb_precedence(at, a, op1, b, op2, c);
}

/// An expression in parentheses on either side of an operator stays one operand, whatever the
/// precedences of the operators inside it: `( x ) op c` parses as `x op c` and `a op ( x )` as
/// `a op x`, with `x` whole. (A binary operand is printed in parentheses; any other stands alone.)
pub proof fn lemma_parenthesized_operand(
    x: ExprView,
    op: PositionContainer<BinaryOperator>,
    other: ExprView,
)
    ensures
        ({
            let left = operand_tokens(x) + operator_tokens(op) + operand_tokens(other);
            expression(left, 0) == Ok::<(ExprView, int), ParseError>(
                (binary(x, op, other), left.len() as int),
            )
        }),
        ({
            let right = operand_tokens(other) + operator_tokens(op) + operand_tokens(x);
            expression(right, 0) == Ok::<(ExprView, int), ParseError>(
                (binary(other, op, x), right.len() as int),
            )
        }),
{
    lemma_round_trip(binary(x, op, other));
    lemma_round_trip(binary(other, op, x));
}


/// The error `e` is reported at index `i` or at a later one.
pub open spec fn reported_from(toks: Seq<Token>, i: int, e: ParseError) -> bool {
    exists|m: int| m >= i && e.position == #[trigger] position_at(toks, m)
}

/// A parse from `i` that succeeds ends at `i` or later (after `i` when `strict`) and not past the
/// end; one that fails reports its error at `i` or later.
pub open spec fn well_placed<T>(r: Parsed<T>, toks: Seq<Token>, i: int, strict: bool) -> bool {
    match r {
        Ok((_, j)) => (if strict {
            i < j
        } else {
            i <= j
        }) && j <= toks.len(),
        Err(e) => reported_from(toks, i, e),
    }
}

proof fn lemma_reported_later(toks: Seq<Token>, i: int, j: int, e: ParseError)
    requires
        i <= j,
        reported_from(toks, j, e),
    ensures
        reported_from(toks, i, e),
{
    let m = choose|m: int| m >= j && e.position == #[trigger] position_at(toks, m);
    assert(m >= i && e.position == position_at(toks, m));
}

proof fn lemma_primary_placed(toks: Seq<Token>, i: int)
    requires
        0 <= i,
    ensures
        well_placed(primary(toks, i), toks, i, true),
    decreases toks.len() - i, 0int,
{
    assert(position_at(toks, i) == position_at(toks, i));
    match kind_at(toks, i) {
        Some(TokenKind::Identifier(_)) => {
            if kind_at(toks, i + 1) == Some(TokenKind::OpeningParentheses) {
                lemma_call_list_placed(toks, i + 2);
                if let Err(e) = call_list(toks, i + 2) {
                    lemma_reported_later(toks, i, i + 2, e);
                }
            }
        },
        Some(TokenKind::OpeningParentheses) => {
            lemma_expression_placed(toks, i + 1);
            match expression(toks, i + 1) {
                Ok((_, j)) => {
                    assert(position_at(toks, j) == position_at(toks, j));
                },
                Err(e) => lemma_reported_later(toks, i, i + 1, e),
            }
        },
        _ => {},
    }
}

proof fn lemma_expression_placed(toks: Seq<Token>, i: int)
    requires
        0 <= i,
    ensures
        well_placed(expression(toks, i), toks, i, true),
    decreases toks.len() - i, 1int,
{
    lemma_primary_placed(toks, i);
    if let Ok((lhs, j)) = primary(toks, i) {
        lemma_climb_placed(toks, None, lhs, j);
        if let Err(e) = climb(toks, None, lhs, j) {
            lemma_reported_later(toks, i, j, e);
        }
    }
}

proof fn lemma_call_list_placed(toks: Seq<Token>, i: int)
    requires
        0 <= i,
    ensures
        well_placed(call_list(toks, i), toks, i, true),
    decreases toks.len() - i, 3int,
{
    if kind_at(toks, i) != Some(TokenKind::ClosingParentheses) {
        lemma_call_arguments_placed(toks, i, Seq::empty());
    }
}

proof fn lemma_call_arguments_placed(toks: Seq<Token>, i: int, acc: Seq<ExprView>)
    requires
        0 <= i,
    ensures
        well_placed(call_arguments(toks, i, acc), toks, i, true),
    decreases toks.len() - i, 2int,
{
    lemma_expression_placed(toks, i);
    if let Ok((a, j)) = expression(toks, i) {
        assert(position_at(toks, j) == position_at(toks, j));
        if kind_at(toks, j) == Some(TokenKind::Comma) {
            lemma_call_arguments_placed(toks, j + 1, acc.push(a));
            if let Err(e) = call_arguments(toks, j + 1, acc.push(a)) {
                lemma_reported_later(toks, i, j + 1, e);
            }
        }
    }
}

proof fn lemma_climb_placed(
    toks: Seq<Token>,
    min: Option<BinaryOperator>,
    lhs: ExprView,
    i: int,
)
    requires
        0 <= i <= toks.len(),
    ensures
        well_placed(climb(toks, min, lhs, i), toks, i, false),
    decreases toks.len() - i, 0int,
{
    if let Some(op) = operator_at(toks, i) {
        if above(op, min) {
            let operator = PositionContainer { value: op, position: toks[i].position };
            lemma_primary_placed(toks, i + 1);
            match primary(toks, i + 1) {
                Ok((rhs, j)) => {
                    if advances(toks, i, j) {
                        if operator_at(toks, j) matches Some(next) && above(next, Some(op)) {
                            lemma_climb_placed(toks, Some(op), rhs, j);
                            match climb(toks, Some(op), rhs, j) {
                                Ok((rhs2, k)) => {
                                    if advances(toks, i, k) {
                                        let folded = ExprView::Binary(Box::new(lhs), operator, Box::new(rhs2));
                                        lemma_climb_placed(toks, min, folded, k);
                                        if let Err(e) = climb(toks, min, folded, k) {
                                            lemma_reported_later(toks, i, k, e);
                                        }
                                    }
                                },
                                Err(e) => lemma_reported_later(toks, i, j, e),
                            }
                        } else {
                            let folded = ExprView::Binary(Box::new(lhs), operator, Box::new(rhs));
                            lemma_climb_placed(toks, min, folded, j);
                            if let Err(e) = climb(toks, min, folded, j) {
                                lemma_reported_later(toks, i, j, e);
                            }
                        }
                    }
                },
                Err(e) => lemma_reported_later(toks, i, i + 1, e),
            }
        }
    }
}

/// A syntax error in an expression, or in the arguments of a call, is reported at the token where
/// the parse stopped, which is at or after the start; when the input ended first, at its last
/// token. So with any tokens at all, the range is that of a token, never a made-up default.
pub proof fn lemma_error_position(toks: Seq<Token>, i: int)
    requires
        0 <= i,
        toks.len() > 0,
    ensures
        expression(toks, i) matches Err(e) ==> exists|k: int|
            0 <= k < toks.len() && (k >= i || k == toks.len() - 1) && e.position
                == #[trigger] toks[k].position,
        call_list(toks, i) matches Err(e) ==> exists|k: int|
            0 <= k < toks.len() && (k >= i || k == toks.len() - 1) && e.position
                == #[trigger] toks[k].position,
{
    lemma_expression_placed(toks, i);
    lemma_call_list_placed(toks, i);
    if let Err(e) = expression(toks, i) {
        let m = choose|m: int| m >= i && e.position == #[trigger] position_at(toks, m);
        if m < toks.len() {
            assert(e.position == toks[m].position);
        } else {
            assert(e.position == toks[toks.len() - 1].position);
        }
    }
    if let Err(e) = call_list(toks, i) {
        let m = choose|m: int| m >= i && e.position == #[trigger] position_at(toks, m);
        if m < toks.len() {
            assert(e.position == toks[m].position);
        } else {
            assert(e.position == toks[toks.len() - 1].position);
        }
    }
}

} // verus!
