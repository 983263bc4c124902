//! The parser: tokens in, a [`Program`] out, by precedence climbing.
//!
//! The grammar is defined by the `spec_parse_*` functions over the sequence
//! of tokens still to come. Each of them takes that sequence and gives the
//! result together with the tokens that are left, the first of which is the
//! last token of what was parsed. The executable parser is proved to return
//! exactly those results.
//!
//! The definitions call one another, so each has to show that it ends. Where
//! one goes on with the tokens that another left, it first asks whether these
//! are fewer than it began with. They always are: see [`crate::grammar`].
//!
//! The parser calls itself once for every level of nesting in the input, and
//! the tree it builds is as deep as the input is nested or as an expression
//! has operators in a row. Neither is bounded here: an input nested more
//! deeply than the call stack of the host can take ends the process. The
//! evaluator, which has a limit of its own, refuses deep trees.
use vstd::prelude::*;
use crate::lexer::{Lexer, lemma_end_of_file, spec_first_token, spec_tokens};
use crate::statement::{
    ExpressionStatement,
    ExpressionView,
    Statement,
    StatementView,
    expressions_view,
    lemma_expression_view,
    names_view,
    statements_view,
};
use crate::token::{Token, TokenView};

verus! {

/// What binds no tighter than anything: every token that is no infix
/// operator.
pub const PRECEDENCE_LOWEST: u8 = 0;

/// `==` and `!=`
pub const PRECEDENCE_EQUAL: u8 = 1;

/// `>`, `>=`, `<` and `<=`
pub const PRECEDENCE_GREATER_LESS: u8 = 2;

/// `+` and `-`
pub const PRECEDENCE_SUM: u8 = 3;

/// `*` and `/`
pub const PRECEDENCE_PRODUCT: u8 = 4;

/// `!x` and `-x`
pub const PRECEDENCE_PREFIX: u8 = 5;

/// A call: `f(x)`
pub const PRECEDENCE_PARENTHESE: u8 = 6;

/// An index: `a[i]`
pub const PRECEDENCE_INDEX: u8 = 7;

/// What the parser was looking for when it met a token it could not use.
#[derive(Clone, Copy, PartialEq, Eq, Debug)]
pub enum Expected {
    /// A name: after `let`, or in a parameter list.
    Identifier,
    /// The `(` of a parameter list.
    LParen,
    /// The `)` that closes a parenthesised condition or expression.
    RParen,
    /// The `{` of a block.
    LCurlyBracket,
    /// The `,` between two parameters.
    Comma,
    /// The `,` or `)` after an argument of a call.
    CommaOrRParen,
    /// The `{` or `if` after `else`.
    BlockOrIf,
    /// A token that an expression can begin with.
    Expression,
}

/// A parse error: what was expected, and the token found in its place.
#[derive(PartialEq, Eq, Debug)]
pub struct ParseError {
    pub expected: Expected,
    pub found: Token,
}

/// The mathematical value of a [`ParseError`].
pub struct ParseErrorView {
    pub expected: Expected,
    pub found: TokenView,
}

impl View for ParseError {
    type V = ParseErrorView;

    open spec fn view(&self) -> ParseErrorView {
        ParseErrorView { expected: self.expected, found: self.found@ }
    }
}

impl Clone for ParseError {
    fn clone(&self) -> (copy: ParseError)
        ensures
            copy@ == self@,
    {
        ParseError { expected: self.expected, found: self.found.clone() }
    }
}

/// The statements that parsed, in order, and the errors of those that did
/// not, in order.
#[derive(PartialEq, Eq, Debug)]
pub struct Program {
    pub statements: Vec<Statement>,
    pub errors: Vec<ParseError>,
}

/// The mathematical value of a [`Program`].
pub struct ProgramView {
    pub statements: Seq<StatementView>,
    pub errors: Seq<ParseErrorView>,
}

/// The errors of a program.
pub open spec fn errors_view(errors: Seq<ParseError>) -> Seq<ParseErrorView> {
    Seq::new(errors.len(), |i: int| errors[i]@)
}

impl View for Program {
    type V = ProgramView;

    open spec fn view(&self) -> ProgramView {
        ProgramView {
            statements: statements_view(self.statements@),
            errors: errors_view(self.errors@),
        }
    }
}

/// The first of the tokens to come, or end-of-file where none is left.
pub open spec fn front(ts: Seq<TokenView>) -> TokenView {
    if ts.len() > 0 {
        ts[0]
    } else {
        TokenView::Eof
    }
}

/// The second of the tokens to come, or end-of-file where there is none.
pub open spec fn second(ts: Seq<TokenView>) -> TokenView {
    if ts.len() > 1 {
        ts[1]
    } else {
        TokenView::Eof
    }
}

/// The tokens to come without the first.
pub open spec fn advance(ts: Seq<TokenView>) -> Seq<TokenView> {
    if ts.len() > 0 {
        ts.skip(1)
    } else {
        ts
    }
}

/// How tightly a token binds as an infix operator.
pub open spec fn spec_precedence(t: TokenView) -> u8 {
    match t {
        TokenView::LSquareBracket => PRECEDENCE_INDEX,
        TokenView::LParen => PRECEDENCE_PARENTHESE,
        TokenView::Equal | TokenView::NotEqual => PRECEDENCE_EQUAL,
        TokenView::Plus | TokenView::Minus => PRECEDENCE_SUM,
        TokenView::Asterisk | TokenView::Slash => PRECEDENCE_PRODUCT,
        TokenView::Gt | TokenView::Gte | TokenView::Lt | TokenView::Lte => PRECEDENCE_GREATER_LESS,
        _ => PRECEDENCE_LOWEST,
    }
}

/// Whether a token is a binary operator of arithmetic or comparison.
pub open spec fn is_binary_operator(t: TokenView) -> bool {
    match t {
        TokenView::Plus
        | TokenView::Minus
        | TokenView::Slash
        | TokenView::Asterisk
        | TokenView::Equal
        | TokenView::NotEqual
        | TokenView::Gt
        | TokenView::Gte
        | TokenView::Lt
        | TokenView::Lte => true,
        _ => false,
    }
}

/// The error of a token found where another was expected.
pub open spec fn unexpected(expected: Expected, found: TokenView) -> ParseErrorView {
    ParseErrorView { expected, found }
}

/// A parameter list from its first token on, which follows the `(`:
/// names separated by commas, up to and with the `)`.
pub open spec fn spec_parse_fn_args(ts: Seq<TokenView>) -> (
    Result<Seq<Seq<char>>, ParseErrorView>,
    Seq<TokenView>,
) {
    match front(ts) {
        TokenView::RParen => (Ok(Seq::empty()), advance(ts)),
        TokenView::Ident(name) => spec_parse_more_fn_args(advance(ts), seq![name]),
        t => (Err(unexpected(Expected::Identifier, t)), ts),
    }
}

/// The rest of a parameter list after a name: `)`, or a comma and one more
/// name and so on.
pub open spec fn spec_parse_more_fn_args(ts: Seq<TokenView>, names: Seq<Seq<char>>) -> (
    Result<Seq<Seq<char>>, ParseErrorView>,
    Seq<TokenView>,
)
    decreases ts.len(),
{
    match front(ts) {
        TokenView::RParen => (Ok(names), advance(ts)),
        TokenView::Comma => match second(ts) {
            TokenView::Ident(name) => spec_parse_more_fn_args(ts.skip(2), names.push(name)),
            t => (Err(unexpected(Expected::Identifier, t)), advance(ts)),
        },
        t => (Err(unexpected(Expected::Comma, t)), ts),
    }
}

/// A statement from its first token on.
///
/// * `let <name>` or `let <name> = <expression>`, each with a directly
///   following `;` if there is one;
/// * `return`, alone where `;`, `}` or the end follows, else with an
///   expression;
/// * else an expression.
pub open spec fn spec_parse_statement(ts: Seq<TokenView>) -> (
    Result<StatementView, ParseErrorView>,
    Seq<TokenView>,
)
    decreases ts.len(), 5nat,
{
    match front(ts) {
        TokenView::Let => match second(ts) {
            TokenView::Ident(name) => {
                if ts.len() > 2 && ts[2] is Assign {
                    let (value, rest) = spec_parse_expression(ts.skip(3), PRECEDENCE_LOWEST);
                    match value {
                        Ok(value) => (
                            Ok(StatementView::Let(name, Some(value))),
                            spec_take_semicolon(rest),
                        ),
                        Err(e) => (Err(e), rest),
                    }
                } else {
                    (Ok(StatementView::Let(name, None)), spec_take_semicolon(advance(ts)))
                }
            },
            t => (Err(unexpected(Expected::Identifier, t)), advance(ts)),
        },
        TokenView::Return => {
            if second(ts) is Semicolon || second(ts) is RCurlyBracket || second(ts) is Eof {
                (Ok(StatementView::Return(None)), ts)
            } else {
                let (value, rest) = spec_parse_expression(ts.skip(1), PRECEDENCE_LOWEST);
                match value {
                    Ok(value) => (Ok(StatementView::Return(Some(value))), rest),
                    Err(e) => (Err(e), rest),
                }
            }
        },
        _ => {
            let (e, rest) = spec_parse_expression(ts, PRECEDENCE_LOWEST);
            match e {
                Ok(e) => (Ok(StatementView::Expression(e)), rest),
                Err(e) => (Err(e), rest),
            }
        },
    }
}

/// Moves on to a `;` that directly follows.
pub open spec fn spec_take_semicolon(ts: Seq<TokenView>) -> Seq<TokenView> {
    if second(ts) is Semicolon {
        advance(ts)
    } else {
        ts
    }
}

/// The statements of a block from its first token on, which follows the `{`,
/// up to the `}`; `statements` are those already parsed.
pub open spec fn spec_parse_block(ts: Seq<TokenView>, statements: Seq<StatementView>) -> (
    Result<Seq<StatementView>, ParseErrorView>,
    Seq<TokenView>,
)
    decreases ts.len(), 6nat,
{
    if front(ts) is RCurlyBracket {
        (Ok(statements), ts)
    } else {
        let (statement, rest) = spec_parse_statement(ts);
        match statement {
            Ok(statement) => {
                if advance(rest).len() < ts.len() {
                    spec_parse_block(advance(rest), statements.push(statement))
                } else {
                    (Ok(statements.push(statement)), rest)
                }
            },
            Err(e) => (Err(e), rest),
        }
    }
}

/// An expression from its first token on: a prefix production, and then
/// infix and call productions for as long as the next token binds more
/// tightly than `precedence`.
pub open spec fn spec_parse_expression(ts: Seq<TokenView>, precedence: u8) -> (
    Result<ExpressionView, ParseErrorView>,
    Seq<TokenView>,
)
    decreases ts.len(), 3nat,
{
    let (left, rest) = spec_parse_prefix(ts);
    match left {
        Ok(left) => {
            if rest.len() <= ts.len() {
                spec_parse_infix(rest, left, precedence)
            } else {
                (Ok(left), rest)
            }
        },
        Err(e) => (Err(e), rest),
    }
}

/// The prefix production that the first token selects.
pub open spec fn spec_parse_prefix(ts: Seq<TokenView>) -> (
    Result<ExpressionView, ParseErrorView>,
    Seq<TokenView>,
)
    decreases ts.len(), 2nat,
{
    match front(ts) {
        TokenView::Bang | TokenView::Minus => {
            let (right, rest) = spec_parse_expression(ts.skip(1), PRECEDENCE_PREFIX);
            match right {
                Ok(right) => (
                    Ok(ExpressionView::Prefix { operator: front(ts), right: Box::new(right) }),
                    rest,
                ),
                Err(e) => (Err(e), rest),
            }
        },
        TokenView::LParen => {
            let (inner, rest) = spec_parse_expression(ts.skip(1), PRECEDENCE_LOWEST);
            match inner {
                Ok(inner) => {
                    if second(rest) is RParen {
                        (Ok(ExpressionView::Group(Box::new(inner))), advance(rest))
                    } else {
                        (Err(unexpected(Expected::RParen, second(rest))), rest)
                    }
                },
                Err(e) => (Err(e), rest),
            }
        },
        TokenView::Num(literal) => (Ok(ExpressionView::Num(literal)), ts),
        TokenView::Ident(name) => (Ok(ExpressionView::Identifier(name)), ts),
        TokenView::True => (Ok(ExpressionView::Bool(true)), ts),
        TokenView::False => (Ok(ExpressionView::Bool(false)), ts),
        TokenView::If => spec_parse_if(ts),
        TokenView::Fn => spec_parse_fn(ts),
        t => (Err(unexpected(Expected::Expression, t)), ts),
    }
}

/// The infix and call productions that follow `left`, whose last token is the
/// first of `ts`.
pub open spec fn spec_parse_infix(ts: Seq<TokenView>, left: ExpressionView, precedence: u8) -> (
    Result<ExpressionView, ParseErrorView>,
    Seq<TokenView>,
)
    decreases ts.len(), 2nat,
{
    let operator = second(ts);
    if precedence >= spec_precedence(operator) {
        (Ok(left), ts)
    } else if is_binary_operator(operator) {
        let (right, rest) = spec_parse_expression(ts.skip(2), spec_precedence(operator));
        match right {
            Ok(right) => {
                let whole = ExpressionView::Infix {
                    left: Box::new(left),
                    operator,
                    right: Box::new(right),
                };
                if rest.len() < ts.len() {
                    spec_parse_infix(rest, whole, precedence)
                } else {
                    (Ok(whole), rest)
                }
            },
            Err(e) => (Err(e), rest),
        }
    } else if operator is LParen {
        let (args, rest) = spec_parse_call(ts.skip(2));
        match args {
            Ok(args) => {
                let whole = ExpressionView::Call { caller: Box::new(left), args };
                if rest.len() < ts.len() {
                    spec_parse_infix(rest, whole, precedence)
                } else {
                    (Ok(whole), rest)
                }
            },
            Err(e) => (Err(e), rest),
        }
    } else {
        (Ok(left), ts)
    }
}

/// The arguments of a call from the first token after the `(` on, up to the
/// `)`: nothing, or expressions separated by commas.
pub open spec fn spec_parse_call(ts: Seq<TokenView>) -> (
    Result<Seq<ExpressionView>, ParseErrorView>,
    Seq<TokenView>,
)
    decreases ts.len(), 5nat,
{
    if front(ts) is RParen {
        (Ok(Seq::empty()), ts)
    } else {
        spec_parse_call_args(ts, Seq::empty())
    }
}

/// One more argument of a call and what follows it; `args` are those already
/// parsed.
pub open spec fn spec_parse_call_args(ts: Seq<TokenView>, args: Seq<ExpressionView>) -> (
    Result<Seq<ExpressionView>, ParseErrorView>,
    Seq<TokenView>,
)
    decreases ts.len(), 4nat,
{
    let (arg, rest) = spec_parse_expression(ts, PRECEDENCE_LOWEST);
    match arg {
        Ok(arg) => match second(rest) {
            TokenView::RParen => (Ok(args.push(arg)), advance(rest)),
            TokenView::Comma => {
                if rest.len() <= ts.len() {
                    spec_parse_call_args(rest.skip(2), args.push(arg))
                } else {
                    (Ok(args.push(arg)), rest)
                }
            },
            t => (Err(unexpected(Expected::CommaOrRParen, t)), advance(rest)),
        },
        Err(e) => (Err(e), rest),
    }
}

/// An `if` expression from the `if` on: the condition, in parentheses or
/// not, the block, and after `else` another `if` expression or a block.
pub open spec fn spec_parse_if(ts: Seq<TokenView>) -> (
    Result<ExpressionView, ParseErrorView>,
    Seq<TokenView>,
)
    decreases ts.len(), 1nat,
{
    if ts.len() == 0 {
        (Err(unexpected(Expected::Expression, TokenView::Eof)), ts)
    } else {
        let parenthesised = second(ts) is LParen;
        let (condition, rest) = spec_parse_expression(
            if parenthesised {
                ts.skip(2)
            } else {
                ts.skip(1)
            },
            PRECEDENCE_LOWEST,
        );
        match condition {
            Err(e) => (Err(e), rest),
            Ok(condition) => {
                if parenthesised && !(second(rest) is RParen) {
                    (Err(unexpected(Expected::RParen, second(rest))), advance(rest))
                } else {
                    let closed = if parenthesised {
                        advance(rest)
                    } else {
                        rest
                    };
                    if !(second(closed) is LCurlyBracket) {
                        (Err(unexpected(Expected::LCurlyBracket, second(closed))), advance(closed))
                    } else if closed.len() > ts.len() {
                        (Err(unexpected(Expected::LCurlyBracket, second(closed))), closed)
                    } else {
                        let (outcome, rest) = spec_parse_block(closed.skip(2), Seq::empty());
                        match outcome {
                            Err(e) => (Err(e), rest),
                            Ok(outcome) => spec_parse_else(ts, condition, outcome, rest),
                        }
                    }
                }
            },
        }
    }
}

/// What follows the block of the `if` expression that starts `ts`: nothing,
/// or `else` and another `if` expression or a block. `rest` begins with the
/// `}` of the block.
pub open spec fn spec_parse_else(
    ts: Seq<TokenView>,
    condition: ExpressionView,
    outcome: Seq<StatementView>,
    rest: Seq<TokenView>,
) -> (Result<ExpressionView, ParseErrorView>, Seq<TokenView>)
    decreases ts.len(), 0nat,
{
    if !(second(rest) is Else) {
        (
            Ok(ExpressionView::If {
                condition: Box::new(condition),
                outcome,
                alternate: Seq::empty(),
            }),
            rest,
        )
    } else if rest.len() > ts.len() {
        (Err(unexpected(Expected::BlockOrIf, TokenView::Eof)), rest)
    } else {
        let after = rest.skip(2);
        match front(after) {
            TokenView::If => {
                let (nested, rest) = spec_parse_if(after);
                match nested {
                    Ok(nested) => (
                        Ok(ExpressionView::If {
                            condition: Box::new(condition),
                            outcome,
                            alternate: seq![StatementView::Expression(nested)],
                        }),
                        rest,
                    ),
                    Err(e) => (Err(e), rest),
                }
            },
            TokenView::LCurlyBracket => {
                let (alternate, rest) = spec_parse_block(after.skip(1), Seq::empty());
                match alternate {
                    Ok(alternate) => (
                        Ok(
                            ExpressionView::If {
                                condition: Box::new(condition),
                                outcome,
                                alternate,
                            },
                        ),
                        rest,
                    ),
                    Err(e) => (Err(e), rest),
                }
            },
            t => (Err(unexpected(Expected::BlockOrIf, t)), after),
        }
    }
}

/// A function literal from the `fn` on: the parameter list and the body.
pub open spec fn spec_parse_fn(ts: Seq<TokenView>) -> (
    Result<ExpressionView, ParseErrorView>,
    Seq<TokenView>,
)
    decreases ts.len(), 1nat,
{
    if !(second(ts) is LParen) {
        (Err(unexpected(Expected::LParen, second(ts))), advance(ts))
    } else {
        let (args, rest) = spec_parse_fn_args(ts.skip(2));
        match args {
            Err(e) => (Err(e), rest),
            Ok(args) => {
                if !(front(rest) is LCurlyBracket) {
                    (Err(unexpected(Expected::LCurlyBracket, front(rest))), rest)
                } else if rest.len() > ts.len() {
                    (Err(unexpected(Expected::LCurlyBracket, front(rest))), rest)
                } else {
                    let (body, rest) = spec_parse_block(rest.skip(1), Seq::empty());
                    match body {
                        Ok(body) => (Ok(ExpressionView::Fn { args, body }), rest),
                        Err(e) => (Err(e), rest),
                    }
                }
            },
        }
    }
}

/// The tokens from the next `;` on, or none where there is no `;`: where
/// parsing resumes after an error.
pub open spec fn spec_recover(ts: Seq<TokenView>) -> Seq<TokenView>
    decreases ts.len(),
{
    if ts.len() == 0 || front(ts) is Semicolon {
        ts
    } else {
        spec_recover(ts.skip(1))
    }
}

/// Moves past a `;` at the front.
pub open spec fn spec_skip_semicolon(ts: Seq<TokenView>) -> Seq<TokenView> {
    if front(ts) is Semicolon {
        advance(ts)
    } else {
        ts
    }
}

/// The program that the tokens `ts` spell, given the statements and errors
/// of the tokens before them.
///
/// Statement after statement is parsed up to the end. After a statement that
/// parsed, its last token and one `;` behind it are passed over. After one
/// that did not, its error is recorded and parsing resumes behind the next
/// `;`.
pub open spec fn spec_parse_statements(
    ts: Seq<TokenView>,
    statements: Seq<StatementView>,
    errors: Seq<ParseErrorView>,
) -> ProgramView
    decreases ts.len(), 7nat,
{
    if ts.len() == 0 {
        ProgramView { statements, errors }
    } else {
        let (statement, rest) = spec_parse_statement(ts);
        match statement {
            Ok(statement) => {
                let next = spec_skip_semicolon(advance(rest));
                if next.len() < ts.len() {
                    spec_parse_statements(next, statements.push(statement), errors)
                } else {
                    ProgramView { statements: statements.push(statement), errors }
                }
            },
            Err(e) => {
                let next = spec_skip_semicolon(spec_recover(rest));
                if next.len() < ts.len() {
                    spec_parse_statements(next, statements, errors.push(e))
                } else {
                    ProgramView { statements, errors: errors.push(e) }
                }
            },
        }
    }
}

/// The program that the tokens `ts` spell.
pub open spec fn spec_parse_program(ts: Seq<TokenView>) -> ProgramView {
    spec_parse_statements(ts, Seq::empty(), Seq::empty())
}

/// The result of parsing an expression, as the contracts speak of it.
pub open spec fn expression_result_view(r: Result<ExpressionStatement, ParseError>) -> Result<
    ExpressionView,
    ParseErrorView,
> {
    match r {
        Ok(e) => Ok(e@),
        Err(e) => Err(e@),
    }
}

/// The result of parsing a statement, as the contracts speak of it.
pub open spec fn statement_result_view(r: Result<Statement, ParseError>) -> Result<
    StatementView,
    ParseErrorView,
> {
    match r {
        Ok(s) => Ok(s@),
        Err(e) => Err(e@),
    }
}

/// A parser over the tokens of a lexer, with the current token and one token
/// of lookahead.
pub struct Parser {
    lexer: Lexer,
    cur_token: Token,
    peek_token: Token,
}

impl View for Parser {
    type V = Seq<TokenView>;

    /// The tokens to come, the current one first, without the end-of-file.
    closed spec fn view(&self) -> Seq<TokenView> {
        if self.cur_token@ is Eof {
            Seq::empty()
        } else if self.peek_token@ is Eof {
            seq![self.cur_token@]
        } else {
            seq![self.cur_token@, self.peek_token@] + spec_tokens(self.lexer@)
        }
    }
}

impl Parser {
    /// Once the end-of-file is the current token or the lookahead, it stays:
    /// the lookahead is never behind the current token, nor the lexer behind
    /// the lookahead.
    pub closed spec fn well_formed(&self) -> bool {
        &&& self.cur_token@ is Eof ==> self.peek_token@ is Eof
        &&& self.peek_token@ is Eof ==> self.lexer@.len() == 0
    }

    /// The current token is the first of the tokens to come and the lookahead
    /// the second.
    proof fn lemma_tokens(&self)
        requires
            self.well_formed(),
        ensures
            front(self@) == self.cur_token@,
            second(self@) == self.peek_token@,
            self@.len() > 2 ==> self@[2] == spec_first_token(self.lexer@),
            self@.len() <= 2 ==> spec_first_token(self.lexer@) is Eof,
    {
        lemma_end_of_file(self.lexer@);
    }

    /// A parser at the first token of the lexer's input.
    pub fn new(mut lexer: Lexer) -> (parser: Parser)
        ensures
            parser.well_formed(),
            parser@ == spec_tokens(lexer@),
    {
        let ghost input = lexer@;
        let cur_token = lexer.next_token();
        let ghost middle = lexer@;
        let peek_token = lexer.next_token();
        proof {
            lemma_end_of_file(input);
            lemma_end_of_file(middle);
            if !(cur_token@ is Eof) {
                assert(spec_tokens(input) == seq![cur_token@] + spec_tokens(middle));
                if !(peek_token@ is Eof) {
                    assert(spec_tokens(middle) == seq![peek_token@] + spec_tokens(lexer@));
                    assert(spec_tokens(input) =~= seq![cur_token@, peek_token@] + spec_tokens(
                        lexer@,
                    ));
                } else {
                    assert(spec_tokens(input) =~= seq![cur_token@]);
                }
            }
        }
        Parser { lexer, cur_token, peek_token }
    }

    /// Moves on by one token; at the end nothing changes.
    pub fn next_token(&mut self)
        requires
            old(self).well_formed(),
        ensures
            final(self).well_formed(),
            final(self)@ == advance(old(self)@),
    {
        proof {
            lemma_end_of_file(self.lexer@);
        }
        let ghost before = *self;
        let mut ahead = self.lexer.next_token();
        proof {
            lemma_end_of_file(self.lexer@);
        }
        std::mem::swap(&mut self.peek_token, &mut ahead);
        self.cur_token = ahead;
        proof {
            if !(before.cur_token@ is Eof) {
                assert(self@ =~= before@.skip(1));
            }
        }
    }

    /// Parses the whole input into the statements that parse and the errors
    /// of those that do not.
    pub fn parse_program(&mut self) -> (program: Program)
        requires
            old(self).well_formed(),
        ensures
            final(self).well_formed(),
            program@ == spec_parse_program(old(self)@),
            final(self)@.len() == 0,
    {
        let mut program = Program { statements: Vec::new(), errors: Vec::new() };
        assert(program@.statements =~= Seq::empty() && program@.errors =~= Seq::empty());
        while !self.at_end()
            invariant
                self.well_formed(),
                spec_parse_program(old(self)@) == spec_parse_statements(
                    self@,
                    program@.statements,
                    program@.errors,
                ),
            decreases self@.len(),
        {
            match self.parse_statement() {
                Ok(statement) => {
                    push_statement(&mut program.statements, statement);
                    self.next_token();
                },
                Err(e) => {
                    push_error(&mut program.errors, e);
                    self.recover();
                },
            }
            self.skip_semicolon();
        }
        program
    }

    /// Whether no token is left.
    fn at_end(&self) -> (r: bool)
        requires
            self.well_formed(),
        ensures
            r == (self@.len() == 0),
    {
        proof {
            self.lemma_tokens();
        }
        matches!(self.cur_token, Token::Eof)
    }

    /// Moves on to the next `;`, or to the end where there is none.
    fn recover(&mut self)
        requires
            old(self).well_formed(),
        ensures
            final(self).well_formed(),
            final(self)@ == spec_recover(old(self)@),
            final(self)@.len() <= old(self)@.len(),
            old(self)@.len() > 0 && !(front(old(self)@) is Semicolon) ==> final(self)@.len() < old(
                self,
            )@.len(),
    {
        loop
            invariant
                self.well_formed(),
                spec_recover(self@) == spec_recover(old(self)@),
                self@.len() <= old(self)@.len(),
                old(self)@.len() > 0 && !(front(old(self)@) is Semicolon) && self@ != old(self)@
                    ==> self@.len() < old(self)@.len(),
            ensures
                self.well_formed(),
                self@ == spec_recover(old(self)@),
                self@.len() <= old(self)@.len(),
                old(self)@.len() > 0 && !(front(old(self)@) is Semicolon) ==> self@.len() < old(
                    self,
                )@.len(),
            decreases self@.len(),
        {
            proof {
                    self.lemma_tokens();
            }
            if matches!(self.cur_token, Token::Eof | Token::Semicolon) {
                break ;
            }
            self.next_token();
        }
    }

    /// Moves past the current token if it is a `;`.
    fn skip_semicolon(&mut self)
        requires
            old(self).well_formed(),
        ensures
            final(self).well_formed(),
            final(self)@ == spec_skip_semicolon(old(self)@),
    {
        proof {
            self.lemma_tokens();
        }
        if matches!(self.cur_token, Token::Semicolon) {
            self.next_token();
        }
    }

    /// Moves on to the next token if it is a `;`.
    fn take_semicolon(&mut self)
        requires
            old(self).well_formed(),
        ensures
            final(self).well_formed(),
            final(self)@ == spec_take_semicolon(old(self)@),
    {
        proof {
            self.lemma_tokens();
        }
        if matches!(self.peek_token, Token::Semicolon) {
            self.next_token();
        }
    }

    /// A copy of the current token.
    fn current(&self) -> (token: Token)
        requires
            self.well_formed(),
        ensures
            token@ == front(self@),
    {
        proof {
            self.lemma_tokens();
        }
        self.cur_token.clone()
    }

    /// An error that names the current token.
    fn unexpected(&self, expected: Expected) -> (e: ParseError)
        requires
            self.well_formed(),
        ensures
            e@ == unexpected(expected, front(self@)),
    {
        ParseError { expected, found: self.current() }
    }

    fn parse_statement(&mut self) -> (result: Result<Statement, ParseError>)
        requires
            old(self).well_formed(),
        ensures
            final(self).well_formed(),
            statement_result_view(result) == spec_parse_statement(old(self)@).0,
            final(self)@ == spec_parse_statement(old(self)@).1,
            final(self)@.len() <= old(self)@.len(),
            result is Ok ==> final(self)@.len() > 0,
        decreases old(self)@.len(), 5nat,
    {
        proof {
            self.lemma_tokens();
        }
        match self.cur_token {
            Token::Let => self.parse_let_statement(),
            Token::Return => self.parse_return_statement(),
            _ => match self.parse_expression_statement(PRECEDENCE_LOWEST) {
                Ok(e) => Ok(Statement::Expression(e)),
                Err(e) => Err(e),
            },
        }
    }

    fn cur_precedence(&self) -> (precedence: u8)
        requires
            self.well_formed(),
        ensures
            precedence == spec_precedence(front(self@)),
    {
        proof {
            self.lemma_tokens();
        }
        precedence_of(&self.cur_token)
    }

    fn peek_precedence(&self) -> (precedence: u8)
        requires
            self.well_formed(),
        ensures
            precedence == spec_precedence(second(self@)),
    {
        proof {
            self.lemma_tokens();
        }
        precedence_of(&self.peek_token)
    }

    fn parse_let_statement(&mut self) -> (result: Result<Statement, ParseError>)
        requires
            old(self).well_formed(),
            front(old(self)@) is Let,
        ensures
            final(self).well_formed(),
            statement_result_view(result) == spec_parse_statement(old(self)@).0,
            final(self)@ == spec_parse_statement(old(self)@).1,
            final(self)@.len() <= old(self)@.len(),
            result is Ok ==> final(self)@.len() > 0,
        decreases old(self)@.len(), 4nat,
    {
        let ghost ts = self@;
        self.next_token();
        proof {
            self.lemma_tokens();
        }
        let name = match &self.cur_token {
            Token::Ident(name) => name.clone(),
            _ => {
                return Err(self.unexpected(Expected::Identifier));
            },
        };
        if !matches!(self.peek_token, Token::Assign) {
            self.take_semicolon();
            return Ok(Statement::Let(name, None));
        }
        self.next_token();
        self.next_token();
        assert(self@ =~= ts.skip(3));
        match self.parse_expression_statement(PRECEDENCE_LOWEST) {
            Ok(value) => {
                self.take_semicolon();
                Ok(Statement::Let(name, Some(value)))
            },
            Err(e) => Err(e),
        }
    }

    fn parse_return_statement(&mut self) -> (result: Result<Statement, ParseError>)
        requires
            old(self).well_formed(),
            front(old(self)@) is Return,
        ensures
            final(self).well_formed(),
            statement_result_view(result) == spec_parse_statement(old(self)@).0,
            final(self)@ == spec_parse_statement(old(self)@).1,
            final(self)@.len() <= old(self)@.len(),
            result is Ok ==> final(self)@.len() > 0,
        decreases old(self)@.len(), 4nat,
    {
        proof {
            self.lemma_tokens();
        }
        if matches!(self.peek_token, Token::Semicolon | Token::RCurlyBracket | Token::Eof) {
            return Ok(Statement::Return(None));
        }
        self.next_token();
        match self.parse_expression_statement(PRECEDENCE_LOWEST) {
            Ok(value) => Ok(Statement::Return(Some(value))),
            Err(e) => Err(e),
        }
    }

    fn parse_expression_statement(&mut self, precedence: u8) -> (result: Result<
        ExpressionStatement,
        ParseError,
    >)
        requires
            old(self).well_formed(),
        ensures
            final(self).well_formed(),
            expression_result_view(result) == spec_parse_expression(old(self)@, precedence).0,
            final(self)@ == spec_parse_expression(old(self)@, precedence).1,
            final(self)@.len() <= old(self)@.len(),
            result is Ok ==> final(self)@.len() > 0,
        decreases old(self)@.len(), 3nat,
    {
        match self.parse_prefix() {
            Ok(left) => self.parse_infix(left, precedence),
            Err(e) => Err(e),
        }
    }

    /// The prefix production that the current token selects.
    fn parse_prefix(&mut self) -> (result: Result<ExpressionStatement, ParseError>)
        requires
            old(self).well_formed(),
        ensures
            final(self).well_formed(),
            expression_result_view(result) == spec_parse_prefix(old(self)@).0,
            final(self)@ == spec_parse_prefix(old(self)@).1,
            final(self)@.len() <= old(self)@.len(),
            result is Ok ==> final(self)@.len() > 0,
        decreases old(self)@.len(), 2nat,
    {
        proof {
            self.lemma_tokens();
        }
        match &self.cur_token {
            Token::Bang | Token::Minus => {
                let operator = self.cur_token.clone();
                self.next_token();
                match self.parse_expression_statement(PRECEDENCE_PREFIX) {
                    Ok(right) => Ok(
                        ExpressionStatement::Prefix { operator, right: Box::new(right) },
                    ),
                    Err(e) => Err(e),
                }
            },
            Token::LParen => {
                self.next_token();
                match self.parse_expression_statement(PRECEDENCE_LOWEST) {
                    Ok(inner) => {
                        proof {
                                            self.lemma_tokens();
                        }
                        if matches!(self.peek_token, Token::RParen) {
                            self.next_token();
                            Ok(ExpressionStatement::Group(Box::new(inner)))
                        } else {
                            Err(
                                ParseError {
                                    expected: Expected::RParen,
                                    found: self.peek_token.clone(),
                                },
                            )
                        }
                    },
                    Err(e) => Err(e),
                }
            },
            Token::Num(literal) => Ok(ExpressionStatement::Num(literal.clone())),
            Token::Ident(name) => Ok(ExpressionStatement::Identifier(name.clone())),
            Token::True => Ok(ExpressionStatement::Bool(true)),
            Token::False => Ok(ExpressionStatement::Bool(false)),
            Token::If => self.parse_if_expression(),
            Token::Fn => self.parse_fn_expression(),
            _ => Err(self.unexpected(Expected::Expression)),
        }
    }

    /// The infix and call productions that follow `left`, whose last token is
    /// the current one.
    fn parse_infix(&mut self, left: ExpressionStatement, precedence: u8) -> (result: Result<
        ExpressionStatement,
        ParseError,
    >)
        requires
            old(self).well_formed(),
            old(self)@.len() > 0,
        ensures
            final(self).well_formed(),
            expression_result_view(result) == spec_parse_infix(old(self)@, left@, precedence).0,
            final(self)@ == spec_parse_infix(old(self)@, left@, precedence).1,
            final(self)@.len() <= old(self)@.len(),
            result is Ok ==> final(self)@.len() > 0,
        decreases old(self)@.len(), 2nat,
    {
        let mut whole = left;
        loop
            invariant
                self.well_formed(),
                0 < self@.len() <= old(self)@.len(),
                spec_parse_infix(old(self)@, left@, precedence) == spec_parse_infix(
                    self@,
                    whole@,
                    precedence,
                ),
            decreases self@.len(),
        {
            proof {
                self.lemma_tokens();
            }
            let ghost ts = self@;
            if precedence >= self.peek_precedence() {
                return Ok(whole);
            }
            match &self.peek_token {
                Token::Plus
                | Token::Minus
                | Token::Slash
                | Token::Asterisk
                | Token::Equal
                | Token::NotEqual
                | Token::Gt
                | Token::Gte
                | Token::Lt
                | Token::Lte => {
                    self.next_token();
                    let binding = self.cur_precedence();
                    let operator = self.current();
                    self.next_token();
                    assert(self@ =~= ts.skip(2));
                    match self.parse_expression_statement(binding) {
                        Ok(right) => {
                            whole =
                            ExpressionStatement::Infix {
                                left: Box::new(whole),
                                operator,
                                right: Box::new(right),
                            };
                        },
                        Err(e) => {
                            return Err(e);
                        },
                    }
                },
                Token::LParen => {
                    self.next_token();
                    self.next_token();
                    assert(self@ =~= ts.skip(2));
                    match self.parse_call() {
                        Ok(args) => {
                            whole = ExpressionStatement::Call { caller: Box::new(whole), args };
                            proof {
                                lemma_expression_view(whole);
                            }
                        },
                        Err(e) => {
                            return Err(e);
                        },
                    }
                },
                _ => {
                    return Ok(whole);
                },
            }
        }
    }

    /// The arguments of a call, from the first token after the `(` up to the
    /// `)`.
    fn parse_call(&mut self) -> (result: Result<Vec<ExpressionStatement>, ParseError>)
        requires
            old(self).well_formed(),
        ensures
            final(self).well_formed(),
            match result {
                Ok(args) => spec_parse_call(old(self)@).0 == Ok::<
                    Seq<ExpressionView>,
                    ParseErrorView,
                >(expressions_view(args@)),
                Err(e) => spec_parse_call(old(self)@).0 == Err::<
                    Seq<ExpressionView>,
                    ParseErrorView,
                >(e@),
            },
            final(self)@ == spec_parse_call(old(self)@).1,
            final(self)@.len() <= old(self)@.len(),
            result is Ok ==> final(self)@.len() > 0,
        decreases old(self)@.len(), 5nat,
    {
        proof {
            self.lemma_tokens();
        }
        let mut args: Vec<ExpressionStatement> = Vec::new();
        assert(expressions_view(args@) =~= Seq::empty());
        if matches!(self.cur_token, Token::RParen) {
            return Ok(args);
        }
        loop
            invariant
                self.well_formed(),
                spec_parse_call(old(self)@) == spec_parse_call_args(
                    self@,
                    expressions_view(args@),
                ),
                self@.len() <= old(self)@.len(),
            decreases self@.len(),
        {
            let ghost before = expressions_view(args@);
            match self.parse_expression_statement(PRECEDENCE_LOWEST) {
                Ok(arg) => {
                    args.push(arg);
                    assert(expressions_view(args@) =~= before.push(arg@));
                },
                Err(e) => {
                    return Err(e);
                },
            }
            let ghost rest = self@;
            self.next_token();
            proof {
                    self.lemma_tokens();
            }
            match self.cur_token {
                Token::RParen => {
                    return Ok(args);
                },
                Token::Comma => {
                    self.next_token();
                    assert(self@ =~= rest.skip(2));
                },
                _ => {
                    return Err(self.unexpected(Expected::CommaOrRParen));
                },
            }
        }
    }

    /// The statements of a block, from the first token after the `{` up to
    /// the `}`.
    fn parse_block(&mut self) -> (result: Result<Vec<Statement>, ParseError>)
        requires
            old(self).well_formed(),
        ensures
            final(self).well_formed(),
            match result {
                Ok(statements) => spec_parse_block(old(self)@, Seq::empty()).0 == Ok::<
                    Seq<StatementView>,
                    ParseErrorView,
                >(statements_view(statements@)),
                Err(e) => spec_parse_block(old(self)@, Seq::empty()).0 == Err::<
                    Seq<StatementView>,
                    ParseErrorView,
                >(e@),
            },
            final(self)@ == spec_parse_block(old(self)@, Seq::empty()).1,
            final(self)@.len() <= old(self)@.len(),
            result is Ok ==> front(final(self)@) is RCurlyBracket,
        decreases old(self)@.len(), 6nat,
    {
        let mut statements: Vec<Statement> = Vec::new();
        assert(statements_view(statements@) =~= Seq::empty());
        loop
            invariant
                self.well_formed(),
                spec_parse_block(old(self)@, Seq::empty()) == spec_parse_block(
                    self@,
                    statements_view(statements@),
                ),
                self@.len() <= old(self)@.len(),
            decreases self@.len(),
        {
            proof {
                    self.lemma_tokens();
            }
            if matches!(self.cur_token, Token::RCurlyBracket) {
                return Ok(statements);
            }
            match self.parse_statement() {
                Ok(statement) => {
                    push_statement(&mut statements, statement);
                },
                Err(e) => {
                    return Err(e);
                },
            }
            self.next_token();
        }
    }

    fn parse_if_expression(&mut self) -> (result: Result<ExpressionStatement, ParseError>)
        requires
            old(self).well_formed(),
            front(old(self)@) is If,
        ensures
            final(self).well_formed(),
            expression_result_view(result) == spec_parse_if(old(self)@).0,
            final(self)@ == spec_parse_if(old(self)@).1,
            final(self)@.len() <= old(self)@.len(),
            result is Ok ==> final(self)@.len() > 0,
        decreases old(self)@.len(), 1nat,
    {
        let ghost ts = self@;
        self.next_token();
        proof {
            self.lemma_tokens();
        }
        let mut has_lparen = false;
        if matches!(self.cur_token, Token::LParen) {
            has_lparen = true;
            self.next_token();
            assert(self@ =~= ts.skip(2));
        }
        let condition = match self.parse_expression_statement(PRECEDENCE_LOWEST) {
            Ok(condition) => condition,
            Err(e) => {
                return Err(e);
            },
        };
        let ghost rest = self@;
        self.next_token();
        proof {
            self.lemma_tokens();
        }
        if has_lparen {
            if !matches!(self.cur_token, Token::RParen) {
                return Err(self.unexpected(Expected::RParen));
            }
            self.next_token();
        }
        proof {
            self.lemma_tokens();
        }
        let ghost closed = if has_lparen {
            advance(rest)
        } else {
            rest
        };
        assert(self@ == advance(closed));
        if !matches!(self.cur_token, Token::LCurlyBracket) {
            return Err(self.unexpected(Expected::LCurlyBracket));
        }
        self.next_token();
        assert(self@ =~= closed.skip(2));
        let outcome = match self.parse_block() {
            Ok(outcome) => outcome,
            Err(e) => {
                return Err(e);
            },
        };
        let ghost rest = self@;
        proof {
            self.lemma_tokens();
        }
        if !matches!(self.peek_token, Token::Else) {
            let whole = ExpressionStatement::If {
                condition: Box::new(condition),
                outcome,
                alternate: Vec::new(),
            };
            proof {
                lemma_expression_view(whole);
                assert(statements_view(Seq::<Statement>::empty()) =~= Seq::empty());
            }
            return Ok(whole);
        }
        self.next_token();
        self.next_token();
        assert(self@ =~= rest.skip(2));
        proof {
            self.lemma_tokens();
        }
        match self.cur_token {
            Token::If => match self.parse_if_expression() {
                Ok(nested) => {
                    let mut alternate: Vec<Statement> = Vec::new();
                    alternate.push(Statement::Expression(nested));
                    let whole = ExpressionStatement::If {
                        condition: Box::new(condition),
                        outcome,
                        alternate,
                    };
                    proof {
                        lemma_expression_view(whole);
                        assert(statements_view(alternate@) =~= seq![
                            StatementView::Expression(nested@),
                        ]);
                    }
                    Ok(whole)
                },
                Err(e) => Err(e),
            },
            Token::LCurlyBracket => {
                self.next_token();
                match self.parse_block() {
                    Ok(alternate) => {
                        let whole = ExpressionStatement::If {
                            condition: Box::new(condition),
                            outcome,
                            alternate,
                        };
                        proof {
                            lemma_expression_view(whole);
                        }
                        Ok(whole)
                    },
                    Err(e) => Err(e),
                }
            },
            _ => Err(self.unexpected(Expected::BlockOrIf)),
        }
    }

    fn parse_fn_expression(&mut self) -> (result: Result<ExpressionStatement, ParseError>)
        requires
            old(self).well_formed(),
            front(old(self)@) is Fn,
        ensures
            final(self).well_formed(),
            expression_result_view(result) == spec_parse_fn(old(self)@).0,
            final(self)@ == spec_parse_fn(old(self)@).1,
            final(self)@.len() <= old(self)@.len(),
            result is Ok ==> final(self)@.len() > 0,
        decreases old(self)@.len(), 1nat,
    {
        let ghost ts = self@;
        self.next_token();
        proof {
            self.lemma_tokens();
        }
        if !matches!(self.cur_token, Token::LParen) {
            return Err(self.unexpected(Expected::LParen));
        }
        self.next_token();
        assert(self@ =~= ts.skip(2));
        let args = match self.parse_fn_args() {
            Ok(args) => args,
            Err(e) => {
                return Err(e);
            },
        };
        proof {
            self.lemma_tokens();
        }
        if !matches!(self.cur_token, Token::LCurlyBracket) {
            return Err(self.unexpected(Expected::LCurlyBracket));
        }
        self.next_token();
        match self.parse_block() {
            Ok(body) => {
                let whole = ExpressionStatement::Fn { args, body };
                proof {
                    lemma_expression_view(whole);
                }
                Ok(whole)
            },
            Err(e) => Err(e),
        }
    }

    fn parse_fn_args(&mut self) -> (result: Result<Vec<String>, ParseError>)
        requires
            old(self).well_formed(),
        ensures
            final(self).well_formed(),
            match result {
                Ok(names) => spec_parse_fn_args(old(self)@).0 == Ok::<
                    Seq<Seq<char>>,
                    ParseErrorView,
                >(names_view(names@)),
                Err(e) => spec_parse_fn_args(old(self)@).0 == Err::<
                    Seq<Seq<char>>,
                    ParseErrorView,
                >(e@),
            },
            final(self)@ == spec_parse_fn_args(old(self)@).1,
            final(self)@.len() <= old(self)@.len(),
    {
        proof {
            self.lemma_tokens();
        }
        let mut args: Vec<String> = Vec::new();
        assert(names_view(args@) =~= Seq::empty());
        if !matches!(self.cur_token, Token::RParen) {
            match &self.cur_token {
                Token::Ident(name) => {
                    args.push(name.clone());
                    assert(names_view(args@) =~= seq![name@]);
                },
                _ => {
                    return Err(self.unexpected(Expected::Identifier));
                },
            }
            self.next_token();
            loop
                invariant
                    self.well_formed(),
                    spec_parse_fn_args(old(self)@) == spec_parse_more_fn_args(
                        self@,
                        names_view(args@),
                    ),
                    self@.len() <= old(self)@.len(),
                ensures
                    self.well_formed(),
                    spec_parse_fn_args(old(self)@) == (
                        Ok::<Seq<Seq<char>>, ParseErrorView>(names_view(args@)),
                        advance(self@),
                    ),
                    self@.len() <= old(self)@.len(),
                decreases self@.len(),
            {
                proof {
                            self.lemma_tokens();
                }
                if matches!(self.cur_token, Token::RParen) {
                    break ;
                }
                if !matches!(self.cur_token, Token::Comma) {
                    return Err(self.unexpected(Expected::Comma));
                }
                let ghost ts = self@;
                let ghost before = names_view(args@);
                self.next_token();
                proof {
                            self.lemma_tokens();
                }
                match &self.cur_token {
                    Token::Ident(name) => {
                        args.push(name.clone());
                        assert(names_view(args@) =~= before.push(name@));
                    },
                    _ => {
                        return Err(self.unexpected(Expected::Identifier));
                    },
                }
                self.next_token();
                assert(self@ =~= ts.skip(2));
            }
        }
        self.next_token();
        Ok(args)
    }
}

/// Parses a source text: the program that its tokens spell.
pub fn parse_program(input: &str) -> (program: Program)
    ensures
        program@ == spec_parse_program(spec_tokens(input@)),
{
    let lexer = Lexer::new(input);
    let mut parser = Parser::new(lexer);
    parser.parse_program()
}

/// How tightly `token` binds as an infix operator.
fn precedence_of(token: &Token) -> (precedence: u8)
    ensures
        precedence == spec_precedence(token@),
{
    match token {
        Token::LSquareBracket => PRECEDENCE_INDEX,
        Token::LParen => PRECEDENCE_PARENTHESE,
        Token::Equal | Token::NotEqual => PRECEDENCE_EQUAL,
        Token::Plus | Token::Minus => PRECEDENCE_SUM,
        Token::Asterisk | Token::Slash => PRECEDENCE_PRODUCT,
        Token::Gt | Token::Gte | Token::Lt | Token::Lte => PRECEDENCE_GREATER_LESS,
        _ => PRECEDENCE_LOWEST,
    }
}

fn push_statement(statements: &mut Vec<Statement>, statement: Statement)
    ensures
        statements_view(final(statements)@) == statements_view(old(statements)@).push(statement@),
{
    statements.push(statement);
    assert(statements_view(statements@) =~= statements_view(old(statements)@).push(statement@));
}

fn push_error(errors: &mut Vec<ParseError>, e: ParseError)
    ensures
        errors_view(final(errors)@) == errors_view(old(errors)@).push(e@),
{
    errors.push(e);
    assert(errors_view(errors@) =~= errors_view(old(errors)@).push(e@));
}

} // verus!
