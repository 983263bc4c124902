//! What holds of the grammar in [`crate::parser`].
//!
//! * Every production uses up tokens and never gives any back, and one that
//!   succeeds ends on a token. So wherever a definition of the grammar asks
//!   whether the tokens have become fewer before it goes on, they have.
//! * Of two operators in a row the first takes the operand between them
//!   unless the second binds more tightly.
use vstd::prelude::*;
use crate::parser::{
    advance,
    front,
    is_binary_operator,
    second,
    spec_parse_block,
    spec_parse_call,
    spec_parse_call_args,
    spec_parse_else,
    spec_parse_expression,
    spec_parse_fn,
    spec_parse_fn_args,
    spec_parse_if,
    spec_parse_infix,
    spec_parse_more_fn_args,
    spec_parse_prefix,
    spec_parse_statement,
    spec_precedence,
    spec_recover,
    ParseErrorView,
    PRECEDENCE_LOWEST,
    PRECEDENCE_PREFIX,
};
use crate::statement::{ExpressionView, StatementView};
use crate::token::TokenView;

verus! {

/// `rest` is what a production left of `ts`: no more tokens than there
/// were, and at least one where the production succeeded.
pub open spec fn is_rest_of(rest: Seq<TokenView>, ts: Seq<TokenView>, succeeded: bool) -> bool {
    &&& rest.len() <= ts.len()
    &&& succeeded ==> rest.len() > 0
}

/// The rest of a parameter list leaves no more tokens than there were.
pub proof fn lemma_parse_more_fn_args(ts: Seq<TokenView>, names: Seq<Seq<char>>)
    ensures
        spec_parse_more_fn_args(ts, names).1.len() <= ts.len(),
    decreases ts.len(),
{
    if front(ts) is Comma && second(ts) is Ident {
        lemma_parse_more_fn_args(ts.skip(2), names.push(second(ts)->Ident_0));
    }
}

/// A parameter list leaves no more tokens than there were.
pub proof fn lemma_parse_fn_args(ts: Seq<TokenView>)
    ensures
        spec_parse_fn_args(ts).1.len() <= ts.len(),
{
    if front(ts) is Ident {
        lemma_parse_more_fn_args(advance(ts), seq![front(ts)->Ident_0]);
    }
}

/// A statement leaves no more tokens than there were, and ends on a token
/// where it succeeds.
pub proof fn lemma_parse_statement(ts: Seq<TokenView>)
    ensures
        is_rest_of(spec_parse_statement(ts).1, ts, spec_parse_statement(ts).0 is Ok),
    decreases ts.len(), 5nat,
{
    match front(ts) {
        TokenView::Let => {
            if second(ts) is Ident && ts.len() > 2 && ts[2] is Assign {
                lemma_parse_expression(ts.skip(3), PRECEDENCE_LOWEST);
            }
        },
        TokenView::Return => {
            if !(second(ts) is Semicolon || second(ts) is RCurlyBracket || second(ts) is Eof) {
                lemma_parse_expression(ts.skip(1), PRECEDENCE_LOWEST);
            }
        },
        _ => {
            lemma_parse_expression(ts, PRECEDENCE_LOWEST);
        },
    }
}

/// A block leaves no more tokens than there were, and ends on its `}` where
/// it succeeds.
pub proof fn lemma_parse_block(ts: Seq<TokenView>, statements: Seq<StatementView>)
    ensures
        spec_parse_block(ts, statements).1.len() <= ts.len(),
        spec_parse_block(ts, statements).0 is Ok ==> front(spec_parse_block(ts, statements).1)
            is RCurlyBracket,
    decreases ts.len(), 6nat,
{
    if !(front(ts) is RCurlyBracket) {
        lemma_parse_statement(ts);
        let (statement, rest) = spec_parse_statement(ts);
        if let Ok(statement) = statement {
            lemma_parse_block(advance(rest), statements.push(statement));
        }
    }
}

/// An expression leaves no more tokens than there were, and ends on a token
/// where it succeeds.
pub proof fn lemma_parse_expression(ts: Seq<TokenView>, precedence: u8)
    ensures
        is_rest_of(
            spec_parse_expression(ts, precedence).1,
            ts,
            spec_parse_expression(ts, precedence).0 is Ok,
        ),
    decreases ts.len(), 3nat,
{
    lemma_parse_prefix(ts);
    let (left, rest) = spec_parse_prefix(ts);
    if let Ok(left) = left {
        lemma_parse_infix(rest, left, precedence);
    }
}

/// A prefix production leaves no more tokens than there were, and ends on
/// a token where it succeeds.
pub proof fn lemma_parse_prefix(ts: Seq<TokenView>)
    ensures
        is_rest_of(spec_parse_prefix(ts).1, ts, spec_parse_prefix(ts).0 is Ok),
    decreases ts.len(), 2nat,
{
    match front(ts) {
        TokenView::Bang | TokenView::Minus => {
            lemma_parse_expression(ts.skip(1), PRECEDENCE_PREFIX);
        },
        TokenView::LParen => {
            lemma_parse_expression(ts.skip(1), PRECEDENCE_LOWEST);
        },
        TokenView::If => {
            lemma_parse_if(ts);
        },
        TokenView::Fn => {
            lemma_parse_fn(ts);
        },
        _ => {},
    }
}

/// The infix productions behind an expression leave no more tokens than
/// there were, and end on a token where they succeed.
pub proof fn lemma_parse_infix(ts: Seq<TokenView>, left: ExpressionView, precedence: u8)
    requires
        ts.len() > 0,
    ensures
        is_rest_of(
            spec_parse_infix(ts, left, precedence).1,
            ts,
            spec_parse_infix(ts, left, precedence).0 is Ok,
        ),
    decreases ts.len(), 2nat,
{
    let operator = second(ts);
    if precedence < spec_precedence(operator) {
        if is_binary_operator(operator) {
            lemma_parse_expression(ts.skip(2), spec_precedence(operator));
            let (right, rest) = spec_parse_expression(ts.skip(2), spec_precedence(operator));
            if let Ok(right) = right {
                lemma_parse_infix(
                    rest,
                    ExpressionView::Infix {
                        left: Box::new(left),
                        operator,
                        right: Box::new(right),
                    },
                    precedence,
                );
            }
        } else if operator is LParen {
            lemma_parse_call(ts.skip(2));
            let (args, rest) = spec_parse_call(ts.skip(2));
            if let Ok(args) = args {
                lemma_parse_infix(
                    rest,
                    ExpressionView::Call { caller: Box::new(left), args },
                    precedence,
                );
            }
        }
    }
}

/// The arguments of a call leave no more tokens than there were, and end on
/// the `)` where they succeed.
pub proof fn lemma_parse_call(ts: Seq<TokenView>)
    ensures
        is_rest_of(spec_parse_call(ts).1, ts, spec_parse_call(ts).0 is Ok),
    decreases ts.len(), 5nat,
{
    if !(front(ts) is RParen) {
        lemma_parse_call_args(ts, Seq::empty());
    }
}

/// One more argument and what follows it leave no more tokens than there
/// were, and end on the `)` where they succeed.
pub proof fn lemma_parse_call_args(ts: Seq<TokenView>, args: Seq<ExpressionView>)
    ensures
        is_rest_of(
            spec_parse_call_args(ts, args).1,
            ts,
            spec_parse_call_args(ts, args).0 is Ok,
        ),
    decreases ts.len(), 4nat,
{
    lemma_parse_expression(ts, PRECEDENCE_LOWEST);
    let (arg, rest) = spec_parse_expression(ts, PRECEDENCE_LOWEST);
    if let Ok(arg) = arg {
        if second(rest) is Comma {
            lemma_parse_call_args(rest.skip(2), args.push(arg));
        }
    }
}

/// An `if` expression leaves no more tokens than there were, and ends on a
/// token where it succeeds.
pub proof fn lemma_parse_if(ts: Seq<TokenView>)
    ensures
        is_rest_of(spec_parse_if(ts).1, ts, spec_parse_if(ts).0 is Ok),
    decreases ts.len(), 1nat,
{
    if ts.len() > 0 {
        let parenthesised = second(ts) is LParen;
        let start = if parenthesised {
            ts.skip(2)
        } else {
            ts.skip(1)
        };
        lemma_parse_expression(start, PRECEDENCE_LOWEST);
        let (condition, rest) = spec_parse_expression(start, PRECEDENCE_LOWEST);
        if let Ok(condition) = condition {
            if !(parenthesised && !(second(rest) is RParen)) {
                let closed = if parenthesised {
                    advance(rest)
                } else {
                    rest
                };
                if second(closed) is LCurlyBracket {
                    lemma_parse_block(closed.skip(2), Seq::empty());
                    let (outcome, rest) = spec_parse_block(closed.skip(2), Seq::empty());
                    if let Ok(outcome) = outcome {
                        lemma_parse_else(ts, condition, outcome, rest);
                    }
                }
            }
        }
    }
}

/// What follows the block of an `if` expression leaves no more tokens than
/// the expression began with, and ends on a token where it succeeds.
pub proof fn lemma_parse_else(
    ts: Seq<TokenView>,
    condition: ExpressionView,
    outcome: Seq<StatementView>,
    rest: Seq<TokenView>,
)
    requires
        0 < rest.len() < ts.len(),
    ensures
        is_rest_of(
            spec_parse_else(ts, condition, outcome, rest).1,
            ts,
            spec_parse_else(ts, condition, outcome, rest).0 is Ok,
        ),
    decreases ts.len(), 0nat,
{
    if second(rest) is Else {
        let after = rest.skip(2);
        match front(after) {
            TokenView::If => {
                lemma_parse_if(after);
            },
            TokenView::LCurlyBracket => {
                lemma_parse_block(after.skip(1), Seq::empty());
            },
            _ => {},
        }
    }
}

/// A function literal leaves no more tokens than there were, and ends on a
/// token where it succeeds.
pub proof fn lemma_parse_fn(ts: Seq<TokenView>)
    ensures
        is_rest_of(spec_parse_fn(ts).1, ts, spec_parse_fn(ts).0 is Ok),
    decreases ts.len(), 1nat,
{
    if second(ts) is LParen {
        lemma_parse_fn_args(ts.skip(2));
        let (args, rest) = spec_parse_fn_args(ts.skip(2));
        if args is Ok && front(rest) is LCurlyBracket {
            lemma_parse_block(rest.skip(1), Seq::empty());
        }
    }
}

/// After an error parsing resumes at a `;` or at the end, and not before
/// where it stopped.
pub proof fn lemma_recover(ts: Seq<TokenView>)
    ensures
        spec_recover(ts).len() <= ts.len(),
        spec_recover(ts).len() == 0 || front(spec_recover(ts)) is Semicolon,
    decreases ts.len(),
{
    if !(ts.len() == 0 || front(ts) is Semicolon) {
        lemma_recover(ts.skip(1));
    }
}

/// Whether a token is an expression by itself.
pub open spec fn is_operand(t: TokenView) -> bool {
    t is Num || t is Ident || t is True || t is False
}

/// The expression that an operand token is.
pub open spec fn operand(t: TokenView) -> ExpressionView {
    match t {
        TokenView::Num(literal) => ExpressionView::Num(literal),
        TokenView::Ident(name) => ExpressionView::Identifier(name),
        TokenView::True => ExpressionView::Bool(true),
        _ => ExpressionView::Bool(false),
    }
}

/// The infix expression of an operator and its two operands.
pub open spec fn binary(left: ExpressionView, operator: TokenView, right: ExpressionView)
    -> ExpressionView {
    ExpressionView::Infix { left: Box::new(left), operator, right: Box::new(right) }
}

/// `a op b` is the infix expression of its two operands.
pub proof fn lemma_one_operator(a: TokenView, first: TokenView, b: TokenView)
    requires
        is_operand(a),
        is_operand(b),
        is_binary_operator(first),
    ensures
        spec_parse_expression(seq![a, first, b], PRECEDENCE_LOWEST) == (
            Ok::<ExpressionView, ParseErrorView>(binary(operand(a), first, operand(b))),
            seq![b],
        ),
{
    let ts = seq![a, first, b];
    assert(ts.skip(2) =~= seq![b]);
    assert(spec_parse_prefix(ts) == (Ok::<ExpressionView, ParseErrorView>(operand(a)), ts));
    assert(spec_parse_prefix(seq![b]) == (
        Ok::<ExpressionView, ParseErrorView>(operand(b)),
        seq![b],
    ));
    assert(spec_parse_infix(seq![b], operand(b), spec_precedence(first)) == (
        Ok::<ExpressionView, ParseErrorView>(operand(b)),
        seq![b],
    ));
    assert(spec_parse_expression(seq![b], spec_precedence(first)) == (
        Ok::<ExpressionView, ParseErrorView>(operand(b)),
        seq![b],
    ));
    let whole = binary(operand(a), first, operand(b));
    assert(spec_parse_infix(seq![b], whole, PRECEDENCE_LOWEST) == (
        Ok::<ExpressionView, ParseErrorView>(whole),
        seq![b],
    ));
    assert(spec_parse_infix(ts, operand(a), PRECEDENCE_LOWEST) == (
        Ok::<ExpressionView, ParseErrorView>(whole),
        seq![b],
    ));
}

/// In `a op b op c` the first operator takes `b` unless the second binds
/// more tightly: operators of one precedence group to the left, and a
/// tighter operator to the right of a looser one takes its operands first.
pub proof fn lemma_two_operators(
    a: TokenView,
    first: TokenView,
    b: TokenView,
    next: TokenView,
    c: TokenView,
)
    requires
        is_operand(a),
        is_operand(b),
        is_operand(c),
        is_binary_operator(first),
        is_binary_operator(next),
    ensures
        spec_parse_expression(seq![a, first, b, next, c], PRECEDENCE_LOWEST).0 == Ok::<
            ExpressionView,
            ParseErrorView,
        >(
            if spec_precedence(first) >= spec_precedence(next) {
                binary(binary(operand(a), first, operand(b)), next, operand(c))
            } else {
                binary(operand(a), first, binary(operand(b), next, operand(c)))
            },
        ),
{
    let ts = seq![a, first, b, next, c];
    let tail = seq![b, next, c];
    let last = seq![c];
    assert(ts.skip(2) =~= tail);
    assert(tail.skip(2) =~= last);
    assert(spec_parse_prefix(ts) == (Ok::<ExpressionView, ParseErrorView>(operand(a)), ts));
    assert(spec_parse_prefix(tail) == (Ok::<ExpressionView, ParseErrorView>(operand(b)), tail));
    assert(spec_parse_prefix(last) == (Ok::<ExpressionView, ParseErrorView>(operand(c)), last));
    if spec_precedence(first) >= spec_precedence(next) {
        let inner = binary(operand(a), first, operand(b));
        assert(spec_parse_infix(tail, operand(b), spec_precedence(first)) == (
            Ok::<ExpressionView, ParseErrorView>(operand(b)),
            tail,
        ));
        assert(spec_parse_expression(tail, spec_precedence(first)) == (
            Ok::<ExpressionView, ParseErrorView>(operand(b)),
            tail,
        ));
        assert(spec_parse_expression(tail.skip(2), spec_precedence(next)) == (
            Ok::<ExpressionView, ParseErrorView>(operand(c)),
            last,
        ));
        assert(spec_parse_infix(last, binary(inner, next, operand(c)), PRECEDENCE_LOWEST) == (
            Ok::<ExpressionView, ParseErrorView>(binary(inner, next, operand(c))),
            last,
        ));
        assert(spec_parse_infix(tail, inner, PRECEDENCE_LOWEST) == (
            Ok::<ExpressionView, ParseErrorView>(binary(inner, next, operand(c))),
            last,
        ));
        assert(spec_parse_infix(ts, operand(a), PRECEDENCE_LOWEST) == (
            Ok::<ExpressionView, ParseErrorView>(binary(inner, next, operand(c))),
            last,
        ));
    } else {
        let inner = binary(operand(b), next, operand(c));
        assert(spec_parse_expression(tail.skip(2), spec_precedence(next)) == (
            Ok::<ExpressionView, ParseErrorView>(operand(c)),
            last,
        ));
        assert(spec_parse_infix(last, inner, spec_precedence(first)) == (
            Ok::<ExpressionView, ParseErrorView>(inner),
            last,
        ));
        assert(spec_parse_infix(tail, operand(b), spec_precedence(first)) == (
            Ok::<ExpressionView, ParseErrorView>(inner),
            last,
        ));
        assert(spec_parse_expression(tail, spec_precedence(first)) == (
            Ok::<ExpressionView, ParseErrorView>(inner),
            last,
        ));
        assert(spec_parse_infix(last, binary(operand(a), first, inner), PRECEDENCE_LOWEST) == (
            Ok::<ExpressionView, ParseErrorView>(binary(operand(a), first, inner)),
            last,
        ));
        assert(spec_parse_infix(ts, operand(a), PRECEDENCE_LOWEST) == (
            Ok::<ExpressionView, ParseErrorView>(binary(operand(a), first, inner)),
            last,
        ));
    }
}

} // verus!
