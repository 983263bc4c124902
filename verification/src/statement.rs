//! The abstract syntax tree: statements and expressions.
//!
//! A tree is built once by the parser and never changed. Each node owns its
//! children; the `*View` types are the same trees over sequences, which is
//! what the contracts of the parser and the evaluator speak of.
use vstd::prelude::*;
use crate::token::{Token, TokenView};

verus! {

/// A statement.
#[derive(PartialEq, Eq, Debug)]
pub enum Statement {
    /// `let <name> [= <initializer>]`
    Let(String, Option<ExpressionStatement>),
    /// `return [<value>]`
    Return(Option<ExpressionStatement>),
    /// An expression in statement position.
    Expression(ExpressionStatement),
}

/// An expression.
#[allow(inconsistent_fields)]
#[derive(PartialEq, Eq, Debug)]
pub enum ExpressionStatement {
    /// Unary `!` or `-`.
    Prefix { operator: Token, right: Box<ExpressionStatement> },
    /// Binary arithmetic or comparison.
    Infix { left: Box<ExpressionStatement>, operator: Token, right: Box<ExpressionStatement> },
    /// `alternate` is empty where there is no `else`; for `else if` it holds
    /// the nested `If` as its only statement.
    If { condition: Box<ExpressionStatement>, outcome: Vec<Statement>, alternate: Vec<Statement> },
    /// A function literal.
    Fn { args: Vec<String>, body: Vec<Statement> },
    Call { caller: Box<ExpressionStatement>, args: Vec<ExpressionStatement> },
    /// A parenthesised expression.
    Group(Box<ExpressionStatement>),
    Identifier(String),
    /// A numeric literal, by its spelling.
    Num(String),
    Bool(bool),
}

/// The mathematical value of a [`Statement`].
pub enum StatementView {
    Let(Seq<char>, Option<ExpressionView>),
    Return(Option<ExpressionView>),
    Expression(ExpressionView),
}

/// The mathematical value of an [`ExpressionStatement`].
#[allow(inconsistent_fields)]
pub enum ExpressionView {
    Prefix { operator: TokenView, right: Box<ExpressionView> },
    Infix { left: Box<ExpressionView>, operator: TokenView, right: Box<ExpressionView> },
    If {
        condition: Box<ExpressionView>,
        outcome: Seq<StatementView>,
        alternate: Seq<StatementView>,
    },
    Fn { args: Seq<Seq<char>>, body: Seq<StatementView> },
    Call { caller: Box<ExpressionView>, args: Seq<ExpressionView> },
    Group(Box<ExpressionView>),
    Identifier(Seq<char>),
    Num(Seq<char>),
    Bool(bool),
}

/// The view of a statement: names as sequences of characters, expressions
/// by their views.
pub open spec fn statement_view(s: Statement) -> StatementView
    decreases s,
{
    match s {
        Statement::Let(name, value) => StatementView::Let(
            name@,
            match value {
                Some(e) => Some(expression_view(e)),
                None => None,
            },
        ),
        Statement::Return(value) => StatementView::Return(
            match value {
                Some(e) => Some(expression_view(e)),
                None => None,
            },
        ),
        Statement::Expression(e) => StatementView::Expression(expression_view(e)),
    }
}

/// The view of an expression: names and literals as sequences of
/// characters, lists as sequences of views.
pub open spec fn expression_view(e: ExpressionStatement) -> ExpressionView
    decreases e,
{
    match e {
        ExpressionStatement::Prefix { operator, right } => ExpressionView::Prefix {
            operator: operator@,
            right: Box::new(expression_view(*right)),
        },
        ExpressionStatement::Infix { left, operator, right } => ExpressionView::Infix {
            left: Box::new(expression_view(*left)),
            operator: operator@,
            right: Box::new(expression_view(*right)),
        },
        ExpressionStatement::If { condition, outcome, alternate } => ExpressionView::If {
            condition: Box::new(expression_view(*condition)),
            outcome: Seq::new(
                outcome@.len(),
                |i: int|
                    if 0 <= i < outcome@.len() {
                        statement_view(outcome@[i])
                    } else {
                        arbitrary()
                    },
            ),
            alternate: Seq::new(
                alternate@.len(),
                |i: int|
                    if 0 <= i < alternate@.len() {
                        statement_view(alternate@[i])
                    } else {
                        arbitrary()
                    },
            ),
        },
        ExpressionStatement::Fn { args, body } => ExpressionView::Fn {
            args: names_view(args@),
            body: Seq::new(
                body@.len(),
                |i: int|
                    if 0 <= i < body@.len() {
                        statement_view(body@[i])
                    } else {
                        arbitrary()
                    },
            ),
        },
        ExpressionStatement::Call { caller, args } => ExpressionView::Call {
            caller: Box::new(expression_view(*caller)),
            args: Seq::new(
                args@.len(),
                |i: int|
                    if 0 <= i < args@.len() {
                        expression_view(args@[i])
                    } else {
                        arbitrary()
                    },
            ),
        },
        ExpressionStatement::Group(inner) => ExpressionView::Group(
            Box::new(expression_view(*inner)),
        ),
        ExpressionStatement::Identifier(name) => ExpressionView::Identifier(name@),
        ExpressionStatement::Num(literal) => ExpressionView::Num(literal@),
        ExpressionStatement::Bool(b) => ExpressionView::Bool(b),
    }
}

/// The names of a parameter list.
pub open spec fn names_view(names: Seq<String>) -> Seq<Seq<char>> {
    Seq::new(names.len(), |i: int| names[i]@)
}

/// The statements of a block.
pub open spec fn statements_view(statements: Seq<Statement>) -> Seq<StatementView> {
    Seq::new(statements.len(), |i: int| statement_view(statements[i]))
}

/// The expressions of an argument list.
pub open spec fn expressions_view(expressions: Seq<ExpressionStatement>) -> Seq<ExpressionView> {
    Seq::new(expressions.len(), |i: int| expression_view(expressions[i]))
}

impl View for Statement {
    type V = StatementView;

    open spec fn view(&self) -> StatementView {
        statement_view(*self)
    }
}

impl View for ExpressionStatement {
    type V = ExpressionView;

    open spec fn view(&self) -> ExpressionView {
        expression_view(*self)
    }
}

/// The view of an expression names its lists by [`statements_view`],
/// [`expressions_view`] and [`names_view`].
pub proof fn lemma_expression_view(e: ExpressionStatement)
    ensures
        e matches ExpressionStatement::If { condition, outcome, alternate } ==> e@
            == (ExpressionView::If {
            condition: Box::new(condition@),
            outcome: statements_view(outcome@),
            alternate: statements_view(alternate@),
        }),
        e matches ExpressionStatement::Fn { args, body } ==> e@ == (ExpressionView::Fn {
            args: names_view(args@),
            body: statements_view(body@),
        }),
        e matches ExpressionStatement::Call { caller, args } ==> e@ == (ExpressionView::Call {
            caller: Box::new(caller@),
            args: expressions_view(args@),
        }),
{
    match e {
        ExpressionStatement::If { condition, outcome, alternate } => {
            assert(e@->If_outcome =~= statements_view(outcome@));
            assert(e@->If_alternate =~= statements_view(alternate@));
        },
        ExpressionStatement::Fn { args, body } => {
            assert(e@->Fn_body =~= statements_view(body@));
        },
        ExpressionStatement::Call { caller, args } => {
            assert(e@->Call_args =~= expressions_view(args@));
        },
        _ => {},
    }
}

/// A copy of a parameter list.
pub fn copy_names(names: &Vec<String>) -> (copy: Vec<String>)
    ensures
        names_view(copy@) == names_view(names@),
{
    let mut copy: Vec<String> = Vec::new();
    let mut i: usize = 0;
    while i < names.len()
        invariant
            i <= names.len(),
            copy.len() == i,
            forall|j: int| 0 <= j < i ==> copy@[j]@ == names@[j]@,
        decreases names.len() - i,
    {
        copy.push(names[i].clone());
        i = i + 1;
    }
    assert(names_view(copy@) =~= names_view(names@));
    copy
}

/// A copy of a block.
pub fn copy_statements(statements: &Vec<Statement>) -> (copy: Vec<Statement>)
    ensures
        statements_view(copy@) == statements_view(statements@),
    decreases statements,
{
    let mut copy: Vec<Statement> = Vec::new();
    let mut i: usize = 0;
    while i < statements.len()
        invariant
            i <= statements.len(),
            copy.len() == i,
            forall|j: int| 0 <= j < i ==> copy@[j]@ == statements@[j]@,
        decreases statements.len() - i,
    {
        copy.push(copy_statement(&statements[i]));
        i = i + 1;
    }
    assert(statements_view(copy@) =~= statements_view(statements@));
    copy
}

/// A copy of an argument list.
pub fn copy_expressions(expressions: &Vec<ExpressionStatement>) -> (copy: Vec<ExpressionStatement>)
    ensures
        expressions_view(copy@) == expressions_view(expressions@),
    decreases expressions,
{
    let mut copy: Vec<ExpressionStatement> = Vec::new();
    let mut i: usize = 0;
    while i < expressions.len()
        invariant
            i <= expressions.len(),
            copy.len() == i,
            forall|j: int| 0 <= j < i ==> copy@[j]@ == expressions@[j]@,
        decreases expressions.len() - i,
    {
        copy.push(copy_expression(&expressions[i]));
        i = i + 1;
    }
    assert(expressions_view(copy@) =~= expressions_view(expressions@));
    copy
}

/// A copy of a statement.
pub fn copy_statement(statement: &Statement) -> (copy: Statement)
    ensures
        copy@ == statement@,
    decreases statement,
{
    match statement {
        Statement::Let(name, None) => Statement::Let(name.clone(), None),
        Statement::Let(name, Some(value)) => Statement::Let(
            name.clone(),
            Some(copy_expression(value)),
        ),
        Statement::Return(None) => Statement::Return(None),
        Statement::Return(Some(value)) => Statement::Return(Some(copy_expression(value))),
        Statement::Expression(e) => Statement::Expression(copy_expression(e)),
    }
}

/// A copy of an expression.
pub fn copy_expression(e: &ExpressionStatement) -> (copy: ExpressionStatement)
    ensures
        copy@ == e@,
    decreases e,
{
    proof {
        lemma_expression_view(*e);
    }
    let copy = match e {
        ExpressionStatement::Prefix { operator, right } => ExpressionStatement::Prefix {
            operator: operator.clone(),
            right: Box::new(copy_expression(right)),
        },
        ExpressionStatement::Infix { left, operator, right } => ExpressionStatement::Infix {
            left: Box::new(copy_expression(left)),
            operator: operator.clone(),
            right: Box::new(copy_expression(right)),
        },
        ExpressionStatement::If { condition, outcome, alternate } => ExpressionStatement::If {
            condition: Box::new(copy_expression(condition)),
            outcome: copy_statements(outcome),
            alternate: copy_statements(alternate),
        },
        ExpressionStatement::Fn { args, body } => ExpressionStatement::Fn {
            args: copy_names(args),
            body: copy_statements(body),
        },
        ExpressionStatement::Call { caller, args } => ExpressionStatement::Call {
            caller: Box::new(copy_expression(caller)),
            args: copy_expressions(args),
        },
        ExpressionStatement::Group(inner) => ExpressionStatement::Group(
            Box::new(copy_expression(inner)),
        ),
        ExpressionStatement::Identifier(name) => ExpressionStatement::Identifier(name.clone()),
        ExpressionStatement::Num(literal) => ExpressionStatement::Num(literal.clone()),
        ExpressionStatement::Bool(b) => ExpressionStatement::Bool(*b),
    };
    proof {
        lemma_expression_view(copy);
    }
    copy
}

impl Clone for Statement {
    fn clone(&self) -> (copy: Statement)
        ensures
            copy@ == self@,
    {
        copy_statement(self)
    }
}

impl Clone for ExpressionStatement {
    fn clone(&self) -> (copy: ExpressionStatement)
        ensures
            copy@ == self@,
    {
        copy_expression(self)
    }
}

} // verus!
