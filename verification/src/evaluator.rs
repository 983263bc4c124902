//! The evaluator: a program and an environment in, a value out.
//!
//! What a program evaluates to is defined by [`Evaluator::spec_eval`] and the
//! functions it rests on, over the views of the tree and of the environment;
//! the executable evaluator is proved to return exactly that value and to
//! leave the environment exactly as defined.
//!
//! The evaluator does no floating-point arithmetic of its own. It is made
//! with three functions: one that reads a numeric literal, one that adds,
//! subtracts, multiplies and divides, and one that writes a number as text.
//! Each must accept every input and give one answer for it; the contracts
//! hold for whatever arithmetic these functions do.
use vstd::prelude::*;
use crate::number::{Number, Operator};
use crate::object::{
    result_view,
    spec_kind,
    spec_refers_from,
    Environment,
    EnvironmentView,
    EvalError,
    EvalErrorView,
    Kind,
    Object,
    ObjectView,
    copy_object,
};
use crate::parser::Program;
use crate::statement::{
    ExpressionStatement,
    ExpressionView,
    Statement,
    StatementView,
    copy_names,
    copy_statements,
    expressions_view,
    lemma_expression_view,
    names_view,
    statements_view,
};
use crate::token::{Token, TokenView};

verus! {

/// How deeply expressions and calls may be nested unless the evaluator is
/// told otherwise.
pub const DEFAULT_DEPTH_LIMIT: usize = 256;

/// The result of an evaluation together with the environment it leaves.
pub type Outcome = (Result<ObjectView, EvalErrorView>, EnvironmentView);

/// An evaluator: the arithmetic it was made with, and how deeply it lets
/// expressions and calls nest.
pub struct Evaluator<P, C, F> {
    parse: P,
    compute: C,
    format: F,
    depth_limit: usize,
}

/// The values of an argument list.
pub open spec fn objects_view(objects: Seq<Object>) -> Seq<ObjectView> {
    Seq::new(objects.len(), |i: int| objects[i]@)
}

/// Whether a value selects the alternate branch of an `if`: only a number
/// that is zero does.
pub open spec fn spec_is_false(value: ObjectView) -> bool {
    value matches ObjectView::Number(n) && n.spec_is_zero()
}

/// Whether a result needs the scopes from `mark` on: it is a value that is,
/// or wraps, a function defined in one of them.
pub open spec fn spec_keeps(result: Result<ObjectView, EvalErrorView>, mark: nat) -> bool {
    result matches Ok(value) && spec_refers_from(value, mark)
}

/// What a comparison operator says of two numbers.
pub open spec fn spec_compare(operator: TokenView, a: Number, b: Number) -> bool {
    match operator {
        TokenView::Equal => a.spec_equals(b),
        TokenView::NotEqual => !a.spec_equals(b),
        TokenView::Lt => a.spec_less_than(b),
        TokenView::Gt => b.spec_less_than(a),
        TokenView::Lte => a.spec_less_than(b) || a.spec_equals(b),
        _ => b.spec_less_than(a) || a.spec_equals(b),
    }
}

/// Whether a token is one of the six comparison operators.
pub open spec fn is_comparison(operator: TokenView) -> bool {
    operator is Equal || operator is NotEqual || operator is Lt || operator is Gt || operator is Lte
        || operator is Gte
}

/// The arithmetic that an operator token asks for, if it asks for any.
pub open spec fn spec_arithmetic(operator: TokenView) -> Option<Operator> {
    match operator {
        TokenView::Plus => Some(Operator::Add),
        TokenView::Minus => Some(Operator::Subtract),
        TokenView::Asterisk => Some(Operator::Multiply),
        TokenView::Slash => Some(Operator::Divide),
        _ => None,
    }
}

/// The error of an operator whose operands are not both numbers: it names
/// the left operand if that is no number, else the right one.
pub open spec fn spec_invalid_operand(
    operator: TokenView,
    left: ObjectView,
    right: ObjectView,
) -> EvalErrorView {
    if left is Number {
        EvalErrorView::InvalidOperand { operator, kind: spec_kind(right) }
    } else {
        EvalErrorView::InvalidOperand { operator, kind: spec_kind(left) }
    }
}

/// What the prefix operator `operator` makes of `value`: `!` turns zero into
/// one and every other number into zero, `-` negates a number.
pub open spec fn spec_prefix(operator: TokenView, value: ObjectView) -> Result<
    ObjectView,
    EvalErrorView,
> {
    match operator {
        TokenView::Bang => match value {
            ObjectView::Number(n) => Ok(
                ObjectView::Number(Number::spec_from_bool(n.spec_is_zero())),
            ),
            _ => Err(EvalErrorView::InvalidOperand { operator, kind: spec_kind(value) }),
        },
        TokenView::Minus => match value {
            ObjectView::Number(n) => Ok(ObjectView::Number(n.spec_negated())),
            _ => Err(EvalErrorView::InvalidOperand { operator, kind: spec_kind(value) }),
        },
        _ => Err(EvalErrorView::InvalidOperator(operator)),
    }
}

/// The new scope of a call with the parameters from `i` on bound to their
/// arguments, one after the other. A parameter that occurs twice is an
/// error, which leaves the parameters before it bound.
pub open spec fn spec_bind_all(
    env: EnvironmentView,
    params: Seq<Seq<char>>,
    values: Seq<ObjectView>,
    i: nat,
) -> (Option<EvalErrorView>, EnvironmentView)
    decreases params.len() - i,
{
    if i >= params.len() {
        (None, env)
    } else if env.binds(params[i as int]) {
        (Some(EvalErrorView::AlreadyInitialized(params[i as int])), env)
    } else {
        spec_bind_all(env.bind(params[i as int], values[i as int]), params, values, i + 1)
    }
}

impl<
    P: Fn(String) -> Option<Number>,
    C: Fn(Operator, Number, Number) -> Number,
    F: Fn(Number) -> String,
> Evaluator<P, C, F> {
    /// Each of the three functions accepts every input and gives one answer
    /// for it.
    pub open spec fn arithmetic_is_total(parse: P, compute: C, format: F) -> bool {
        &&& forall|text: String| call_requires(parse, (text,))
        &&& forall|operator: Operator, a: Number, b: Number|
            call_requires(compute, (operator, a, b))
        &&& forall|n: Number| call_requires(format, (n,))
    }

    /// Each of the three functions gives one answer for an input: whatever it
    /// may return for a literal, for two operands or for a number is the same.
    pub open spec fn arithmetic_is_functional(parse: P, compute: C, format: F) -> bool {
        &&& forall|t1: String, t2: String, r1: Option<Number>, r2: Option<Number>|
            t1@ == t2@ && call_ensures(parse, (t1,), r1) && call_ensures(parse, (t2,), r2) ==> r1
                == r2
        &&& forall|operator: Operator, a: Number, b: Number, r1: Number, r2: Number|
            call_ensures(compute, (operator, a, b), r1) && call_ensures(
                compute,
                (operator, a, b),
                r2,
            ) ==> r1 == r2
        &&& forall|n: Number, t1: String, t2: String|
            call_ensures(format, (n,), t1) && call_ensures(format, (n,), t2) ==> t1@ == t2@
    }

    /// The arithmetic of this evaluator accepts every input and gives one
    /// answer for it.
    pub closed spec fn well_formed(&self) -> bool {
        &&& Self::arithmetic_is_total(self.parse, self.compute, self.format)
        &&& Self::arithmetic_is_functional(self.parse, self.compute, self.format)
    }

    /// How deeply expressions and calls may be nested.
    pub closed spec fn spec_depth_limit(&self) -> nat {
        self.depth_limit as nat
    }

    /// The number that the literal `text` stands for, if it stands for one.
    pub closed spec fn spec_literal(&self, text: Seq<char>) -> Option<Number> {
        (choose|answer: (String, Option<Number>)|
            answer.0@ == text && call_ensures(self.parse, (answer.0,), answer.1)).1
    }

    /// The sum, difference, product or quotient of `a` and `b`.
    pub closed spec fn spec_compute(&self, operator: Operator, a: Number, b: Number) -> Number {
        choose|r: Number| call_ensures(self.compute, (operator, a, b), r)
    }

    /// The number `n` as text.
    pub closed spec fn spec_format(&self, n: Number) -> Seq<char> {
        (choose|text: String| call_ensures(self.format, (n,), text))@
    }

    /// What the infix operator `operator` makes of `left` and `right`.
    ///
    /// * `+` adds two numbers, and joins two texts, or a text and a number
    ///   written as text.
    /// * `-`, `*` and `/` are for two numbers; dividing by zero is an error.
    /// * The six comparisons are for two numbers and give one or zero.
    pub open spec fn spec_infix(&self, operator: TokenView, left: ObjectView, right: ObjectView)
        -> Result<ObjectView, EvalErrorView> {
        if operator is Plus {
            match (left, right) {
                (ObjectView::Number(a), ObjectView::Number(b)) => Ok(
                    ObjectView::Number(self.spec_compute(Operator::Add, a, b)),
                ),
                (ObjectView::Number(a), ObjectView::String(t)) => Ok(
                    ObjectView::String(self.spec_format(a) + t),
                ),
                (ObjectView::String(s), ObjectView::Number(b)) => Ok(
                    ObjectView::String(s + self.spec_format(b)),
                ),
                (ObjectView::String(s), ObjectView::String(t)) => Ok(ObjectView::String(s + t)),
                (ObjectView::Number(_), _) | (ObjectView::String(_), _) => Err(
                    EvalErrorView::InvalidOperand { operator, kind: spec_kind(right) },
                ),
                _ => Err(EvalErrorView::InvalidOperand { operator, kind: spec_kind(left) }),
            }
        } else if spec_arithmetic(operator) is Some {
            match (left, right) {
                (ObjectView::Number(a), ObjectView::Number(b)) => {
                    if operator is Slash && b.spec_is_zero() {
                        Err(EvalErrorView::DivisionByZero)
                    } else {
                        Ok(
                            ObjectView::Number(
                                self.spec_compute(spec_arithmetic(operator)->0, a, b),
                            ),
                        )
                    }
                },
                _ => Err(spec_invalid_operand(operator, left, right)),
            }
        } else if is_comparison(operator) {
            match (left, right) {
                (ObjectView::Number(a), ObjectView::Number(b)) => Ok(
                    ObjectView::Number(Number::spec_from_bool(spec_compare(operator, a, b))),
                ),
                _ => Err(spec_invalid_operand(operator, left, right)),
            }
        } else {
            Err(EvalErrorView::InvalidOperator(operator))
        }
    }

    /// The value of an expression in `env`, and the environment afterwards.
    ///
    /// Every step into a part of the expression or into a function's body
    /// takes one unit of `depth`; where none is left the result is
    /// [`EvalError::DepthExceeded`].
    ///
    /// The scopes that were opened on the way are discarded at the end,
    /// unless the value is, or wraps, a function that was defined in one of
    /// them.
    pub open spec fn spec_eval_expression(
        &self,
        expr: ExpressionView,
        env: EnvironmentView,
        depth: nat,
    ) -> Outcome
        decreases depth, 1nat, 0nat,
    {
        let (result, after) = self.spec_eval_node(expr, env, depth);
        (result, after.release(env.scopes.len(), spec_keeps(result, env.scopes.len())))
    }

    /// The value of an expression in `env`, and the environment afterwards
    /// with all the scopes that were opened on the way.
    ///
    /// * The condition of an `if`, the branch it selects and the body of a
    ///   called function are each evaluated in a new scope; afterwards the
    ///   scope that was current is current again.
    /// * The new scope of a condition or a branch is enclosed by the current
    ///   scope, that of a function's body by the scope the function was
    ///   defined in.
    pub open spec fn spec_eval_node(
        &self,
        expr: ExpressionView,
        env: EnvironmentView,
        depth: nat,
    ) -> Outcome
        decreases depth, 0nat, 0nat,
    {
        if depth == 0 {
            (Err(EvalErrorView::DepthExceeded), env)
        } else {
            match expr {
                ExpressionView::Prefix { operator, right } => {
                    let (value, env) = self.spec_eval_expression(*right, env, (depth - 1) as nat);
                    match value {
                        Ok(value) => (spec_prefix(operator, value), env),
                        Err(e) => (Err(e), env),
                    }
                },
                ExpressionView::Infix { left, operator, right } => {
                    let (left, env) = self.spec_eval_expression(*left, env, (depth - 1) as nat);
                    match left {
                        Ok(left) => {
                            let (right, env) = self.spec_eval_expression(
                                *right,
                                env,
                                (depth - 1) as nat,
                            );
                            match right {
                                Ok(right) => (self.spec_infix(operator, left, right), env),
                                Err(e) => (Err(e), env),
                            }
                        },
                        Err(e) => (Err(e), env),
                    }
                },
                ExpressionView::If { condition, outcome, alternate } => {
                    let (value, after) = self.spec_eval_expression(
                        *condition,
                        env.enter(env.current, false),
                        (depth - 1) as nat,
                    );
                    match value {
                        Ok(value) => {
                            let (result, after) = self.spec_eval_block_from(
                                if spec_is_false(value) {
                                    alternate
                                } else {
                                    outcome
                                },
                                0,
                                after.enter(env.current, false),
                                ObjectView::Null,
                                (depth - 1) as nat,
                            );
                            (result, after.at(env.current))
                        },
                        Err(e) => (Err(e), after.at(env.current)),
                    }
                },
                ExpressionView::Fn { args, body } => (
                    Ok(ObjectView::Function { params: args, body, env: env.current }),
                    env,
                ),
                ExpressionView::Call { caller, args } => {
                    let (callee, after) = self.spec_eval_expression(
                        *caller,
                        env,
                        (depth - 1) as nat,
                    );
                    match callee {
                        Ok(ObjectView::Function { params, body, env: defined_in }) => {
                            let (values, after) = self.spec_eval_args(
                                args,
                                0,
                                after,
                                Seq::empty(),
                                (depth - 1) as nat,
                            );
                            match values {
                                Ok(values) => {
                                    if values.len() != params.len() {
                                        (
                                            Err(
                                                EvalErrorView::WrongArgumentCount {
                                                    expected: params.len() as usize,
                                                    found: values.len() as usize,
                                                },
                                            ),
                                            after,
                                        )
                                    } else if defined_in >= after.scopes.len() {
                                        (
                                            Err(EvalErrorView::UnknownScope(defined_in as usize)),
                                            after,
                                        )
                                    } else {
                                        let (error, frame) = spec_bind_all(
                                            after.enter(defined_in, true),
                                            params,
                                            values,
                                            0,
                                        );
                                        match error {
                                            None => {
                                                let (result, after) = self.spec_eval_block_from(
                                                    body,
                                                    0,
                                                    frame,
                                                    ObjectView::Null,
                                                    (depth - 1) as nat,
                                                );
                                                (result, after.at(env.current))
                                            },
                                            Some(e) => (Err(e), frame.at(env.current)),
                                        }
                                    }
                                },
                                Err(e) => (Err(e), after),
                            }
                        },
                        Ok(other) => (Err(EvalErrorView::NotAFunction(spec_kind(other))), after),
                        Err(e) => (Err(e), after),
                    }
                },
                ExpressionView::Group(inner) => self.spec_eval_expression(
                    *inner,
                    env,
                    (depth - 1) as nat,
                ),
                ExpressionView::Identifier(name) => (
                    match env.lookup(env.current, name) {
                        Some(value) => Ok(value),
                        None => Err(EvalErrorView::UndefinedVariable(name)),
                    },
                    env,
                ),
                ExpressionView::Num(literal) => (
                    match self.spec_literal(literal) {
                        Some(n) => Ok(ObjectView::Number(n)),
                        None => Err(EvalErrorView::InvalidNumber(literal)),
                    },
                    env,
                ),
                ExpressionView::Bool(b) => (Ok(ObjectView::Number(Number::spec_from_bool(b))), env),
            }
        }
    }

    /// The values of the arguments from `i` on, evaluated from left to right
    /// in `env`, behind the `values` of those before them.
    pub open spec fn spec_eval_args(
        &self,
        args: Seq<ExpressionView>,
        i: nat,
        env: EnvironmentView,
        values: Seq<ObjectView>,
        depth: nat,
    ) -> (Result<Seq<ObjectView>, EvalErrorView>, EnvironmentView)
        decreases depth, 2nat, args.len() - i,
    {
        if i >= args.len() {
            (Ok(values), env)
        } else {
            let (value, env) = self.spec_eval_expression(args[i as int], env, depth);
            match value {
                Ok(value) => self.spec_eval_args(args, i + 1, env, values.push(value), depth),
                Err(e) => (Err(e), env),
            }
        }
    }

    /// What `let name [= value]` binds: an error if the current scope binds
    /// `name` already, else the value of the initializer, or null without
    /// one. The environment is that after the initializer, without the new
    /// binding.
    pub open spec fn spec_eval_let(
        &self,
        name: Seq<char>,
        value: Option<ExpressionView>,
        env: EnvironmentView,
        depth: nat,
    ) -> Outcome
        decreases depth, 2nat, 0nat,
    {
        if env.binds(name) {
            (Err(EvalErrorView::AlreadyInitialized(name)), env)
        } else {
            match value {
                Some(value) => self.spec_eval_expression(value, env, depth),
                None => (Ok(ObjectView::Null), env),
            }
        }
    }

    /// The value of a block from its statement `i` on; `last` is the value
    /// of the statement before.
    ///
    /// A `return`, or an expression whose value is on its way out of a
    /// function, ends the block: in the scope of a function's body the bare
    /// value is the result, elsewhere the value in its wrapper.
    pub open spec fn spec_eval_block_from(
        &self,
        block: Seq<StatementView>,
        i: nat,
        env: EnvironmentView,
        last: ObjectView,
        depth: nat,
    ) -> Outcome
        decreases depth, 3nat, block.len() - i,
    {
        if i >= block.len() {
            (Ok(last), env)
        } else {
            match block[i as int] {
                StatementView::Let(name, value) => {
                    let (value, env) = self.spec_eval_let(name, value, env, depth);
                    match value {
                        Ok(value) => self.spec_eval_block_from(
                            block,
                            i + 1,
                            env.bind(name, value),
                            value,
                            depth,
                        ),
                        Err(e) => (Err(e), env),
                    }
                },
                StatementView::Return(value) => {
                    let (value, env) = match value {
                        Some(value) => self.spec_eval_expression(value, env, depth),
                        None => (Ok(ObjectView::Null), env),
                    };
                    match value {
                        Ok(value) => (
                            Ok(
                                if env.in_function() {
                                    value
                                } else {
                                    ObjectView::Return(Box::new(value))
                                },
                            ),
                            env,
                        ),
                        Err(e) => (Err(e), env),
                    }
                },
                StatementView::Expression(expr) => {
                    let (value, env) = self.spec_eval_expression(expr, env, depth);
                    match value {
                        Ok(ObjectView::Return(inner)) => (
                            Ok(
                                if env.in_function() {
                                    *inner
                                } else {
                                    ObjectView::Return(inner)
                                },
                            ),
                            env,
                        ),
                        Ok(value) => self.spec_eval_block_from(block, i + 1, env, value, depth),
                        Err(e) => (Err(e), env),
                    }
                },
            }
        }
    }

    /// The value of a block in `env`: that of its last statement, or null
    /// for an empty block.
    pub open spec fn spec_eval_block(&self, block: Seq<StatementView>, env: EnvironmentView)
        -> Outcome {
        self.spec_eval_block_from(block, 0, env, ObjectView::Null, self.spec_depth_limit())
    }

    /// The value of a program from its statement `i` on; `last` is the value
    /// of the statement before.
    ///
    /// At the top level a `return` is an error, and so is an expression
    /// whose value is on its way out of a function.
    pub open spec fn spec_eval_from(
        &self,
        statements: Seq<StatementView>,
        i: nat,
        env: EnvironmentView,
        last: ObjectView,
    ) -> Outcome
        decreases statements.len() - i,
    {
        if i >= statements.len() {
            (Ok(last), env)
        } else {
            match statements[i as int] {
                StatementView::Let(name, value) => {
                    let (value, env) = self.spec_eval_let(
                        name,
                        value,
                        env,
                        self.spec_depth_limit(),
                    );
                    match value {
                        Ok(value) => self.spec_eval_from(
                            statements,
                            i + 1,
                            env.bind(name, value),
                            value,
                        ),
                        Err(e) => (Err(e), env),
                    }
                },
                StatementView::Return(_) => (Err(EvalErrorView::ReturnOutsideFunction), env),
                StatementView::Expression(expr) => {
                    let (value, env) = self.spec_eval_expression(
                        expr,
                        env,
                        self.spec_depth_limit(),
                    );
                    match value {
                        Ok(ObjectView::Return(_)) => (
                            Err(EvalErrorView::ReturnOutsideFunction),
                            env,
                        ),
                        Ok(value) => self.spec_eval_from(statements, i + 1, env, value),
                        Err(e) => (Err(e), env),
                    }
                },
            }
        }
    }

    /// The value of a program in `env`: that of its last statement, or null
    /// for an empty program. The environment keeps the bindings of the
    /// statements before an error.
    pub open spec fn spec_eval(&self, statements: Seq<StatementView>, env: EnvironmentView)
        -> Outcome {
        self.spec_eval_from(statements, 0, env, ObjectView::Null)
    }
    /// An evaluator with the given arithmetic and the default depth limit.
    pub fn new(parse: P, compute: C, format: F) -> (evaluator: Self)
        requires
            Self::arithmetic_is_total(parse, compute, format),
            Self::arithmetic_is_functional(parse, compute, format),
        ensures
            evaluator.well_formed(),
            evaluator.spec_depth_limit() == DEFAULT_DEPTH_LIMIT,
            forall|text: String, r: Option<Number>|
                call_ensures(parse, (text,), r) ==> evaluator.spec_literal(text@) == r,
            forall|operator: Operator, a: Number, b: Number, r: Number|
                call_ensures(compute, (operator, a, b), r) ==> evaluator.spec_compute(
                    operator,
                    a,
                    b,
                ) == r,
            forall|n: Number, text: String|
                call_ensures(format, (n,), text) ==> evaluator.spec_format(n) == text@,
    {
        let evaluator = Evaluator { parse, compute, format, depth_limit: DEFAULT_DEPTH_LIMIT };
        proof {
            assert forall|text: String, r: Option<Number>|
                call_ensures(parse, (text,), r) implies evaluator.spec_literal(text@) == r by {
                let answer = (text, r);
                assert(answer.0@ == text@ && call_ensures(parse, (answer.0,), answer.1));
            }
        }
        evaluator
    }

    /// The same evaluator with another depth limit.
    pub fn with_depth_limit(self, depth_limit: usize) -> (evaluator: Self)
        requires
            self.well_formed(),
        ensures
            evaluator.well_formed(),
            evaluator.spec_depth_limit() == depth_limit,
            forall|text: Seq<char>| evaluator.spec_literal(text) == self.spec_literal(text),
            forall|operator: Operator, a: Number, b: Number|
                evaluator.spec_compute(operator, a, b) == self.spec_compute(operator, a, b),
            forall|n: Number| evaluator.spec_format(n) == self.spec_format(n),
    {
        Evaluator {
            parse: self.parse,
            compute: self.compute,
            format: self.format,
            depth_limit,
        }
    }

    /// Evaluates the statements of a program at the top level of
    /// `environment`.
    pub fn eval(&self, program: Program, environment: &mut Environment) -> (result: Result<
        Object,
        EvalError,
    >)
        requires
            self.well_formed(),
            old(environment).well_formed(),
        ensures
            final(environment).well_formed(),
            result_view(result) == self.spec_eval(program@.statements, old(environment)@).0,
            final(environment)@ == self.spec_eval(program@.statements, old(environment)@).1,
    {
        let mut last_v = Object::Null;
        let mut i: usize = 0;
        while i < program.statements.len()
            invariant
                self.well_formed(),
                environment.well_formed(),
                i <= program.statements.len(),
                self.spec_eval(program@.statements, old(environment)@) == self.spec_eval_from(
                    program@.statements,
                    i as nat,
                    environment@,
                    last_v@,
                ),
            decreases program.statements.len() - i,
        {
            assert(program@.statements[i as int] == program.statements@[i as int]@);
            match &program.statements[i] {
                Statement::Let(name, value) => {
                    match self.eval_let(name, value, environment, self.depth_limit) {
                        Ok(v) => {
                            last_v = copy_object(&v);
                            environment.insert(name.clone(), v);
                        },
                        Err(e) => {
                            return Err(e);
                        },
                    }
                },
                Statement::Return(_) => {
                    return Err(EvalError::ReturnOutsideFunction);
                },
                Statement::Expression(expr) => {
                    match self.eval_expression(environment, expr, self.depth_limit) {
                        Ok(Object::Return(_)) => {
                            return Err(EvalError::ReturnOutsideFunction);
                        },
                        Ok(obj) => {
                            last_v = obj;
                        },
                        Err(e) => {
                            return Err(e);
                        },
                    }
                },
            }
            i = i + 1;
        }
        Ok(last_v)
    }

    /// Evaluates the statements of a block in the current scope of
    /// `environment`.
    pub fn eval_block(&self, block: &Vec<Statement>, environment: &mut Environment) -> (result:
        Result<Object, EvalError>)
        requires
            self.well_formed(),
            old(environment).well_formed(),
        ensures
            final(environment).well_formed(),
            result_view(result) == self.spec_eval_block(
                statements_view(block@),
                old(environment)@,
            ).0,
            final(environment)@ == self.spec_eval_block(
                statements_view(block@),
                old(environment)@,
            ).1,
    {
        self.eval_block_within(block, environment, self.depth_limit)
    }

    /// Evaluates a block with `depth` units of nesting left.
    fn eval_block_within(&self, block: &Vec<Statement>, environment: &mut Environment, depth: usize)
        -> (result: Result<Object, EvalError>)
        requires
            self.well_formed(),
            old(environment).well_formed(),
        ensures
            final(environment).well_formed(),
            final(environment)@.current == old(environment)@.current,
            final(environment)@.scopes.len() >= old(environment)@.scopes.len(),
            result_view(result) == self.spec_eval_block_from(
                statements_view(block@),
                0,
                old(environment)@,
                ObjectView::Null,
                depth as nat,
            ).0,
            final(environment)@ == self.spec_eval_block_from(
                statements_view(block@),
                0,
                old(environment)@,
                ObjectView::Null,
                depth as nat,
            ).1,
        decreases depth, 3nat,
    {
        let mut last_v = Object::Null;
        let mut i: usize = 0;
        while i < block.len()
            invariant
                self.well_formed(),
                environment.well_formed(),
                environment@.current == old(environment)@.current,
                environment@.scopes.len() >= old(environment)@.scopes.len(),
                i <= block.len(),
                self.spec_eval_block_from(
                    statements_view(block@),
                    0,
                    old(environment)@,
                    ObjectView::Null,
                    depth as nat,
                ) == self.spec_eval_block_from(
                    statements_view(block@),
                    i as nat,
                    environment@,
                    last_v@,
                    depth as nat,
                ),
            decreases block.len() - i,
        {
            assert(statements_view(block@)[i as int] == block@[i as int]@);
            match &block[i] {
                Statement::Let(name, value) => {
                    match self.eval_let(name, value, environment, depth) {
                        Ok(v) => {
                            last_v = copy_object(&v);
                            environment.insert(name.clone(), v);
                        },
                        Err(e) => {
                            return Err(e);
                        },
                    }
                },
                Statement::Return(return_value) => {
                    let v = match return_value {
                        None => Object::Null,
                        Some(expr) => match self.eval_expression(environment, expr, depth) {
                            Ok(obj) => obj,
                            Err(e) => {
                                return Err(e);
                            },
                        },
                    };
                    if environment.in_function() {
                        return Ok(v);
                    }
                    let ghost inner = v@;
                    let wrapped = Object::Return(Box::new(v));
                    assert(wrapped@ == ObjectView::Return(Box::new(inner)));
                    return Ok(wrapped);
                },
                Statement::Expression(expr) => {
                    match self.eval_expression(environment, expr, depth) {
                        Ok(Object::Return(obj)) => {
                            if environment.in_function() {
                                return Ok(*obj);
                            }
                            return Ok(Object::Return(obj));
                        },
                        Ok(obj) => {
                            last_v = obj;
                        },
                        Err(e) => {
                            return Err(e);
                        },
                    }
                },
            }
            i = i + 1;
        }
        Ok(last_v)
    }

    /// The value that `let name [= value]` is about to bind.
    fn eval_let(
        &self,
        name: &String,
        value: &Option<ExpressionStatement>,
        environment: &mut Environment,
        depth: usize,
    ) -> (result: Result<Object, EvalError>)
        requires
            self.well_formed(),
            old(environment).well_formed(),
        ensures
            final(environment).well_formed(),
            final(environment)@.current == old(environment)@.current,
            final(environment)@.scopes.len() >= old(environment)@.scopes.len(),
            result_view(result) == self.spec_eval_let(
                name@,
                match value {
                    Some(value) => Some(value@),
                    None => None,
                },
                old(environment)@,
                depth as nat,
            ).0,
            final(environment)@ == self.spec_eval_let(
                name@,
                match value {
                    Some(value) => Some(value@),
                    None => None,
                },
                old(environment)@,
                depth as nat,
            ).1,
        decreases depth, 2nat,
    {
        if environment.contains(name.as_str()) {
            return Err(EvalError::AlreadyInitialized(name.clone()));
        }
        match value {
            None => Ok(Object::Null),
            Some(expr) => self.eval_expression(environment, expr, depth),
        }
    }

    /// The values of the arguments of a call, from left to right.
    fn eval_args(
        &self,
        environment: &mut Environment,
        args: &Vec<ExpressionStatement>,
        depth: usize,
    ) -> (result: Result<Vec<Object>, EvalError>)
        requires
            self.well_formed(),
            old(environment).well_formed(),
        ensures
            final(environment).well_formed(),
            final(environment)@.current == old(environment)@.current,
            final(environment)@.scopes.len() >= old(environment)@.scopes.len(),
            match result {
                Ok(values) => self.spec_eval_args(
                    expressions_view(args@),
                    0,
                    old(environment)@,
                    Seq::empty(),
                    depth as nat,
                ).0 == Ok::<Seq<ObjectView>, EvalErrorView>(objects_view(values@)),
                Err(e) => self.spec_eval_args(
                    expressions_view(args@),
                    0,
                    old(environment)@,
                    Seq::empty(),
                    depth as nat,
                ).0 == Err::<Seq<ObjectView>, EvalErrorView>(e@),
            },
            final(environment)@ == self.spec_eval_args(
                expressions_view(args@),
                0,
                old(environment)@,
                Seq::empty(),
                depth as nat,
            ).1,
        decreases depth, 2nat,
    {
        let mut values: Vec<Object> = Vec::new();
        let mut i: usize = 0;
        assert(objects_view(values@) =~= Seq::empty());
        while i < args.len()
            invariant
                self.well_formed(),
                environment.well_formed(),
                environment@.current == old(environment)@.current,
                environment@.scopes.len() >= old(environment)@.scopes.len(),
                i <= args.len(),
                self.spec_eval_args(
                    expressions_view(args@),
                    0,
                    old(environment)@,
                    Seq::empty(),
                    depth as nat,
                ) == self.spec_eval_args(
                    expressions_view(args@),
                    i as nat,
                    environment@,
                    objects_view(values@),
                    depth as nat,
                ),
            decreases args.len() - i,
        {
            assert(expressions_view(args@)[i as int] == args@[i as int]@);
            let ghost before = objects_view(values@);
            match self.eval_expression(environment, &args[i], depth) {
                Ok(v) => {
                    values.push(v);
                    assert(objects_view(values@) =~= before.push(v@));
                },
                Err(e) => {
                    return Err(e);
                },
            }
            i = i + 1;
        }
        Ok(values)
    }

    /// Binds the parameters of a call to their arguments in the current
    /// scope.
    fn bind_all(
        environment: &mut Environment,
        params: &Vec<String>,
        values: &Vec<Object>,
    ) -> (error: Option<EvalError>)
        requires
            old(environment).well_formed(),
            params.len() == values.len(),
        ensures
            final(environment).well_formed(),
            final(environment)@.current == old(environment)@.current,
            final(environment)@.scopes.len() == old(environment)@.scopes.len(),
            match error {
                Some(e) => spec_bind_all(
                    old(environment)@,
                    names_view(params@),
                    objects_view(values@),
                    0,
                ).0 == Some(e@),
                None => spec_bind_all(
                    old(environment)@,
                    names_view(params@),
                    objects_view(values@),
                    0,
                ).0 is None,
            },
            final(environment)@ == spec_bind_all(
                old(environment)@,
                names_view(params@),
                objects_view(values@),
                0,
            ).1,
    {
        let mut i: usize = 0;
        while i < params.len()
            invariant
                environment.well_formed(),
                environment@.current == old(environment)@.current,
                environment@.scopes.len() == old(environment)@.scopes.len(),
                params.len() == values.len(),
                i <= params.len(),
                spec_bind_all(old(environment)@, names_view(params@), objects_view(values@), 0)
                    == spec_bind_all(
                    environment@,
                    names_view(params@),
                    objects_view(values@),
                    i as nat,
                ),
            decreases params.len() - i,
        {
            if environment.contains(params[i].as_str()) {
                return Some(EvalError::AlreadyInitialized(params[i].clone()));
            }
            environment.insert(params[i].clone(), copy_object(&values[i]));
            i = i + 1;
        }
        None
    }

    /// The number that a literal stands for.
    fn literal(&self, text: &String) -> (r: Option<Number>)
        requires
            self.well_formed(),
        ensures
            r == self.spec_literal(text@),
    {
        let copy = text.clone();
        let r = (self.parse)(copy);
        proof {
            let answer = (copy, r);
            assert(answer.0@ == text@ && call_ensures(self.parse, (answer.0,), answer.1));
        }
        r
    }

    fn computed(&self, operator: Operator, a: Number, b: Number) -> (r: Number)
        requires
            self.well_formed(),
        ensures
            r == self.spec_compute(operator, a, b),
    {
        (self.compute)(operator, a, b)
    }

    fn formatted(&self, n: Number) -> (text: String)
        requires
            self.well_formed(),
        ensures
            text@ == self.spec_format(n),
    {
        (self.format)(n)
    }

    /// What `+` makes of two values.
    fn add(&self, operator: &Token, lhs: Object, rhs: Object) -> (result: Result<Object, EvalError>)
        requires
            self.well_formed(),
            operator@ is Plus,
        ensures
            result_view(result) == self.spec_infix(operator@, lhs@, rhs@),
    {
        match lhs {
            Object::Number(num1) => match rhs {
                Object::Number(num2) => Ok(
                    Object::Number(self.computed(Operator::Add, num1, num2)),
                ),
                Object::String(s2) => Ok(
                    Object::String(self.formatted(num1).concat(s2.as_str())),
                ),
                other => Err(
                    EvalError::InvalidOperand { operator: operator.clone(), kind: other.kind() },
                ),
            },
            Object::String(s1) => match rhs {
                Object::Number(num2) => Ok(
                    Object::String(s1.concat(self.formatted(num2).as_str())),
                ),
                Object::String(s2) => Ok(Object::String(s1.concat(s2.as_str()))),
                other => Err(
                    EvalError::InvalidOperand { operator: operator.clone(), kind: other.kind() },
                ),
            },
            other => Err(
                EvalError::InvalidOperand { operator: operator.clone(), kind: other.kind() },
            ),
        }
    }

    /// What `-` makes of two values.
    fn sub(&self, operator: &Token, lhs: Object, rhs: Object) -> (result: Result<Object, EvalError>)
        requires
            self.well_formed(),
            operator@ is Minus,
        ensures
            result_view(result) == self.spec_infix(operator@, lhs@, rhs@),
    {
        match (lhs, rhs) {
            (Object::Number(num1), Object::Number(num2)) => Ok(
                Object::Number(self.computed(Operator::Subtract, num1, num2)),
            ),
            (lhs, rhs) => Err(invalid_operand(operator, &lhs, &rhs)),
        }
    }

    /// What an infix operator makes of two values.
    fn infix(&self, operator: &Token, lhs: Object, rhs: Object) -> (result: Result<
        Object,
        EvalError,
    >)
        requires
            self.well_formed(),
        ensures
            result_view(result) == self.spec_infix(operator@, lhs@, rhs@),
    {
        match operator {
            Token::Plus => self.add(operator, lhs, rhs),
            Token::Minus => self.sub(operator, lhs, rhs),
            Token::Asterisk => match (lhs, rhs) {
                (Object::Number(a), Object::Number(b)) => Ok(
                    Object::Number(self.computed(Operator::Multiply, a, b)),
                ),
                (lhs, rhs) => Err(invalid_operand(operator, &lhs, &rhs)),
            },
            Token::Slash => match (lhs, rhs) {
                (Object::Number(a), Object::Number(b)) => {
                    if b.is_zero() {
                        Err(EvalError::DivisionByZero)
                    } else {
                        Ok(Object::Number(self.computed(Operator::Divide, a, b)))
                    }
                },
                (lhs, rhs) => Err(invalid_operand(operator, &lhs, &rhs)),
            },
            Token::Equal | Token::NotEqual | Token::Lt | Token::Gt | Token::Lte | Token::Gte => {
                match (lhs, rhs) {
                    (Object::Number(a), Object::Number(b)) => Ok(
                        Object::Number(Number::from_bool(compare(operator, a, b))),
                    ),
                    (lhs, rhs) => Err(invalid_operand(operator, &lhs, &rhs)),
                }
            },
            _ => Err(EvalError::InvalidOperator(operator.clone())),
        }
    }

    /// Evaluates an expression with `depth` units of nesting left, and
    /// discards the scopes that were opened on the way unless the value needs
    /// them.
    fn eval_expression(
        &self,
        environment: &mut Environment,
        expr: &ExpressionStatement,
        depth: usize,
    ) -> (result: Result<Object, EvalError>)
        requires
            self.well_formed(),
            old(environment).well_formed(),
        ensures
            final(environment).well_formed(),
            final(environment)@.current == old(environment)@.current,
            final(environment)@.scopes.len() >= old(environment)@.scopes.len(),
            result_view(result) == self.spec_eval_expression(
                expr@,
                old(environment)@,
                depth as nat,
            ).0,
            final(environment)@ == self.spec_eval_expression(
                expr@,
                old(environment)@,
                depth as nat,
            ).1,
        decreases depth, 1nat,
    {
        let mark = environment.len();
        let result = self.eval_node(environment, expr, depth);
        let keep = match &result {
            Ok(value) => value.refers_from(mark),
            Err(_) => false,
        };
        environment.release(mark, keep);
        result
    }

    /// Evaluates an expression by its kind; the scopes that are opened on the
    /// way are still there afterwards.
    fn eval_node(
        &self,
        environment: &mut Environment,
        expr: &ExpressionStatement,
        depth: usize,
    ) -> (result: Result<Object, EvalError>)
        requires
            self.well_formed(),
            old(environment).well_formed(),
        ensures
            final(environment).well_formed(),
            final(environment)@.current == old(environment)@.current,
            final(environment)@.scopes.len() >= old(environment)@.scopes.len(),
            result_view(result) == self.spec_eval_node(
                expr@,
                old(environment)@,
                depth as nat,
            ).0,
            final(environment)@ == self.spec_eval_node(
                expr@,
                old(environment)@,
                depth as nat,
            ).1,
        decreases depth, 0nat,
    {
        if depth == 0 {
            return Err(EvalError::DepthExceeded);
        }
        proof {
            lemma_expression_view(*expr);
        }
        let saved = environment.current();
        match expr {
            ExpressionStatement::Prefix { operator, right } => {
                match self.eval_expression(environment, right, depth - 1) {
                    Ok(v) => prefix(operator, v),
                    Err(e) => Err(e),
                }
            },
            ExpressionStatement::Infix { left, operator, right } => {
                let lhs = match self.eval_expression(environment, left, depth - 1) {
                    Ok(lhs) => lhs,
                    Err(e) => {
                        return Err(e);
                    },
                };
                let rhs = match self.eval_expression(environment, right, depth - 1) {
                    Ok(rhs) => rhs,
                    Err(e) => {
                        return Err(e);
                    },
                };
                self.infix(operator, lhs, rhs)
            },
            ExpressionStatement::If { condition, outcome, alternate } => {
                environment.enter(saved, false);
                let cond = self.eval_expression(environment, condition, depth - 1);
                environment.set_current(saved);
                let cond = match cond {
                    Ok(cond) => cond,
                    Err(e) => {
                        return Err(e);
                    },
                };
                let branch = if is_false(&cond) {
                    alternate
                } else {
                    outcome
                };
                environment.enter(saved, false);
                let result = self.eval_block_within(branch, environment, depth - 1);
                environment.set_current(saved);
                result
            },
            ExpressionStatement::Fn { args, body } => Ok(
                Object::Function {
                    params: copy_names(args),
                    body: copy_statements(body),
                    env: saved,
                },
            ),
            ExpressionStatement::Call { caller, args } => {
                let callee = match self.eval_expression(environment, caller, depth - 1) {
                    Ok(callee) => callee,
                    Err(e) => {
                        return Err(e);
                    },
                };
                match callee {
                    Object::Function { params, body, env: defined_in } => {
                        let values = match self.eval_args(environment, args, depth - 1) {
                            Ok(values) => values,
                            Err(e) => {
                                return Err(e);
                            },
                        };
                        if values.len() != params.len() {
                            return Err(
                                EvalError::WrongArgumentCount {
                                    expected: params.len(),
                                    found: values.len(),
                                },
                            );
                        }
                        if defined_in >= environment.len() {
                            return Err(EvalError::UnknownScope(defined_in));
                        }
                        environment.enter(defined_in, true);
                        match Self::bind_all(environment, &params, &values) {
                            Some(e) => {
                                environment.set_current(saved);
                                Err(e)
                            },
                            None => {
                                let result = self.eval_block_within(&body, environment, depth - 1);
                                environment.set_current(saved);
                                result
                            },
                        }
                    },
                    other => Err(EvalError::NotAFunction(other.kind())),
                }
            },
            ExpressionStatement::Group(inner) => self.eval_expression(
                environment,
                inner,
                depth - 1,
            ),
            ExpressionStatement::Identifier(name) => environment.get(name.as_str()),
            ExpressionStatement::Num(literal) => match self.literal(literal) {
                Some(n) => Ok(Object::Number(n)),
                None => Err(EvalError::InvalidNumber(literal.clone())),
            },
            ExpressionStatement::Bool(b) => Ok(Object::Number(Number::from_bool(*b))),
        }
    }
}

/// Whether a value selects the alternate branch of an `if`.
pub fn is_false(value: &Object) -> (r: bool)
    ensures
        r == spec_is_false(value@),
{
    match value {
        Object::Number(n) => n.is_zero(),
        _ => false,
    }
}

/// What a prefix operator makes of a value.
pub fn prefix(operator: &Token, value: Object) -> (result: Result<Object, EvalError>)
    ensures
        result_view(result) == spec_prefix(operator@, value@),
{
    match operator {
        Token::Bang => match value {
            Object::Number(n) => Ok(Object::Number(Number::from_bool(n.is_zero()))),
            other => Err(
                EvalError::InvalidOperand { operator: operator.clone(), kind: other.kind() },
            ),
        },
        Token::Minus => match value {
            Object::Number(n) => Ok(Object::Number(n.negated())),
            other => Err(
                EvalError::InvalidOperand { operator: operator.clone(), kind: other.kind() },
            ),
        },
        _ => Err(EvalError::InvalidOperator(operator.clone())),
    }
}

/// What a comparison operator says of two numbers.
fn compare(operator: &Token, a: Number, b: Number) -> (r: bool)
    requires
        is_comparison(operator@),
    ensures
        r == spec_compare(operator@, a, b),
{
    match operator {
        Token::Equal => a.equals(b),
        Token::NotEqual => !a.equals(b),
        Token::Lt => a.less_than(b),
        Token::Gt => b.less_than(a),
        Token::Lte => a.less_than(b) || a.equals(b),
        _ => b.less_than(a) || a.equals(b),
    }
}

fn invalid_operand(operator: &Token, lhs: &Object, rhs: &Object) -> (e: EvalError)
    ensures
        e@ == spec_invalid_operand(operator@, lhs@, rhs@),
{
    match lhs {
        Object::Number(_) => EvalError::InvalidOperand {
            operator: operator.clone(),
            kind: rhs.kind(),
        },
        _ => EvalError::InvalidOperand { operator: operator.clone(), kind: lhs.kind() },
    }
}

} // verus!
