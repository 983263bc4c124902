//! What evaluation does to the scopes of an environment.
//!
//! Evaluation leaves what was there as it was. It opens scopes behind the
//! existing ones and discards them when they are no longer needed, and it
//! adds bindings to the current scope. Everything here is stated over the
//! definitions in [`crate::evaluator`], so it holds of every run of the
//! evaluator.
use vstd::prelude::*;
use crate::evaluator::{Evaluator, spec_bind_all, spec_keeps};
use crate::number::{Number, Operator};
use crate::object::{EnvironmentView, EvalErrorView, ObjectView};
use crate::statement::{ExpressionView, StatementView};

verus! {

/// `after` has every scope of `before`, unchanged, and the same current
/// scope.
pub open spec fn keeps_scopes(after: EnvironmentView, before: EnvironmentView) -> bool {
    &&& after.current == before.current
    &&& before.scopes.len() <= after.scopes.len()
    &&& forall|j: int| 0 <= j < before.scopes.len() ==> after.scopes[j] == before.scopes[j]
}

/// `after` has every scope of `before` and the same current scope. The
/// current scope has every binding it had, and may have more; the other
/// scopes are unchanged.
pub open spec fn keeps_bindings(after: EnvironmentView, before: EnvironmentView) -> bool {
    &&& after.current == before.current
    &&& before.scopes.len() <= after.scopes.len()
    &&& forall|j: int|
        0 <= j < before.scopes.len() && j != before.current ==> after.scopes[j]
            == before.scopes[j]
    &&& after.scopes[before.current as int].outer == before.scopes[before.current as int].outer
    &&& after.scopes[before.current as int].in_function
        == before.scopes[before.current as int].in_function
    &&& before.scopes[before.current as int].variables.submap_of(
        after.scopes[before.current as int].variables,
    )
}

/// A binding goes to the current scope and nowhere else.
pub proof fn lemma_bind(env: EnvironmentView, name: Seq<char>, value: ObjectView)
    requires
        env.well_formed(),
    ensures
        env.bind(name, value).well_formed(),
        env.bind(name, value).lookup(env.current, name) == Some(value),
        forall|j: int|
            0 <= j < env.scopes.len() && j != env.current ==> env.bind(name, value).scopes[j]
                == env.scopes[j],
        !env.binds(name) ==> keeps_bindings(env.bind(name, value), env),
{
}

/// A name looked up from a new scope is found where it was found from the
/// scope that encloses the new one: what is bound outside is visible inside.
pub proof fn lemma_enter(env: EnvironmentView, outer: nat, in_function: bool, name: Seq<char>)
    requires
        env.well_formed(),
        outer < env.scopes.len(),
    ensures
        env.enter(outer, in_function).well_formed(),
        keeps_scopes(env.enter(outer, in_function).at(env.current), env),
        env.enter(outer, in_function).lookup(env.scopes.len(), name) == env.lookup(outer, name),
{
    let inner = env.enter(outer, in_function);
    lemma_same_lookup(inner, env, outer, name);
    assert(!inner.scopes[env.scopes.len() as int].variables.contains_key(name));
    assert(inner.scopes[env.scopes.len() as int].outer == Some(outer));
}

/// Keeping the scopes is more than keeping the bindings.
pub proof fn lemma_keeps_scopes_keeps_bindings(after: EnvironmentView, before: EnvironmentView)
    requires
        before.well_formed(),
        keeps_scopes(after, before),
    ensures
        keeps_bindings(after, before),
{
}

/// What keeps the bindings of an environment that keeps those of another
/// keeps those of the other.
pub proof fn lemma_keeps_bindings_twice(
    last: EnvironmentView,
    middle: EnvironmentView,
    first: EnvironmentView,
)
    requires
        first.well_formed(),
        keeps_bindings(middle, first),
        keeps_bindings(last, middle),
    ensures
        keeps_bindings(last, first),
{
    let current = first.current as int;
    vstd::map_lib::lemma_submap_of_trans(
        first.scopes[current].variables,
        middle.scopes[current].variables,
        last.scopes[current].variables,
    );
    assert forall|j: int| 0 <= j < first.scopes.len() && j != first.current implies last.scopes[j]
        == first.scopes[j] by {
        assert(middle.scopes[j] == first.scopes[j]);
    }
}

/// Where the scopes up to `scope` are the same, so is what a name looked up
/// from `scope` is found to be.
pub proof fn lemma_same_lookup(
    after: EnvironmentView,
    before: EnvironmentView,
    scope: nat,
    name: Seq<char>,
)
    requires
        before.scopes.len() <= after.scopes.len(),
        forall|j: int|
            0 <= j <= scope && j < before.scopes.len() ==> after.scopes[j] == before.scopes[j],
        scope < before.scopes.len(),
    ensures
        after.lookup(scope, name) == before.lookup(scope, name),
    decreases scope,
{
    if !before.scopes[scope as int].variables.contains_key(name) {
        match before.scopes[scope as int].outer {
            Some(outer) => {
                if outer < scope {
                    lemma_same_lookup(after, before, outer, name);
                }
            },
            None => {},
        }
    }
}

/// Binding the parameters of a call changes the current scope only.
pub proof fn lemma_bind_all(
    env: EnvironmentView,
    params: Seq<Seq<char>>,
    values: Seq<ObjectView>,
    i: nat,
)
    requires
        env.well_formed(),
    ensures
        spec_bind_all(env, params, values, i).1.well_formed(),
        keeps_bindings(spec_bind_all(env, params, values, i).1, env),
        spec_bind_all(env, params, values, i).1.scopes.len() == env.scopes.len(),
    decreases params.len() - i,
{
    if i < params.len() && !env.binds(params[i as int]) {
        let next = env.bind(params[i as int], values[i as int]);
        lemma_bind(env, params[i as int], values[i as int]);
        lemma_bind_all(next, params, values, i + 1);
        lemma_keeps_bindings_twice(spec_bind_all(env, params, values, i).1, next, env);
    } else {
        lemma_keeps_scopes_keeps_bindings(env, env);
    }
}

impl<
    P: Fn(String) -> Option<Number>,
    C: Fn(Operator, Number, Number) -> Number,
    F: Fn(Number) -> String,
> Evaluator<P, C, F> {
    /// Evaluating an expression leaves every scope as it was and the current
    /// scope current: whatever an `if` or a call binds, it binds in scopes of
    /// its own.
    pub proof fn lemma_expression_keeps_scopes(
        &self,
        expr: ExpressionView,
        env: EnvironmentView,
        depth: nat,
    )
        requires
            env.well_formed(),
        ensures
            self.spec_eval_expression(expr, env, depth).1.well_formed(),
            keeps_scopes(self.spec_eval_expression(expr, env, depth).1, env),
        decreases depth, 0nat, 0nat,
    {
        if depth > 0 {
            let d = (depth - 1) as nat;
            match expr {
                ExpressionView::Prefix { operator, right } => {
                    self.lemma_expression_keeps_scopes(*right, env, d);
                },
                ExpressionView::Infix { left, operator, right } => {
                    self.lemma_expression_keeps_scopes(*left, env, d);
                    let (value, after) = self.spec_eval_expression(*left, env, d);
                    if value is Ok {
                        self.lemma_expression_keeps_scopes(*right, after, d);
                    }
                },
                ExpressionView::If { condition, outcome, alternate } => {
                    let inner = env.enter(env.current, false);
                    self.lemma_expression_keeps_scopes(*condition, inner, d);
                    let (value, after) = self.spec_eval_expression(*condition, inner, d);
                    assert(keeps_scopes(after.at(env.current), env));
                    if let Ok(value) = value {
                        let branch = if crate::evaluator::spec_is_false(value) {
                            alternate
                        } else {
                            outcome
                        };
                        let entered = after.enter(env.current, false);
                        self.lemma_block_keeps_bindings(branch, 0, entered, ObjectView::Null, d);
                        let (result, last) = self.spec_eval_block_from(
                            branch,
                            0,
                            entered,
                            ObjectView::Null,
                            d,
                        );
                        assert(keeps_scopes(last.at(env.current), env));
                    }
                },
                ExpressionView::Call { caller, args } => {
                    self.lemma_expression_keeps_scopes(*caller, env, d);
                    let (callee, after) = self.spec_eval_expression(*caller, env, d);
                    if let Ok(ObjectView::Function { params, body, env: defined_in }) = callee {
                        self.lemma_args_keep_scopes(args, 0, after, Seq::empty(), d);
                        let (values, after) = self.spec_eval_args(args, 0, after, Seq::empty(), d);
                        if let Ok(values) = values {
                            if values.len() == params.len() && defined_in < after.scopes.len() {
                                let entered = after.enter(defined_in, true);
                                lemma_bind_all(entered, params, values, 0);
                                let (error, frame) = spec_bind_all(entered, params, values, 0);
                                assert(keeps_scopes(frame.at(env.current), env));
                                if error is None {
                                    self.lemma_block_keeps_bindings(
                                        body,
                                        0,
                                        frame,
                                        ObjectView::Null,
                                        d,
                                    );
                                    let (result, last) = self.spec_eval_block_from(
                                        body,
                                        0,
                                        frame,
                                        ObjectView::Null,
                                        d,
                                    );
                                    assert(keeps_scopes(last.at(env.current), env));
                                }
                            }
                        }
                    }
                },
                ExpressionView::Group(inner) => {
                    self.lemma_expression_keeps_scopes(*inner, env, d);
                },
                _ => {},
            }
        }
    }

    /// Evaluating the arguments of a call leaves every scope as it was.
    pub proof fn lemma_args_keep_scopes(
        &self,
        args: Seq<ExpressionView>,
        i: nat,
        env: EnvironmentView,
        values: Seq<ObjectView>,
        depth: nat,
    )
        requires
            env.well_formed(),
        ensures
            self.spec_eval_args(args, i, env, values, depth).1.well_formed(),
            keeps_scopes(self.spec_eval_args(args, i, env, values, depth).1, env),
        decreases depth, 1nat, args.len() - i,
    {
        if i < args.len() {
            self.lemma_expression_keeps_scopes(args[i as int], env, depth);
            let (value, after) = self.spec_eval_expression(args[i as int], env, depth);
            if let Ok(value) = value {
                self.lemma_args_keep_scopes(args, i + 1, after, values.push(value), depth);
            }
        }
    }

    /// Evaluating a block changes no scope but the current one, which keeps
    /// the bindings it had: a `let` adds a binding to the current scope and
    /// never replaces one.
    pub proof fn lemma_block_keeps_bindings(
        &self,
        block: Seq<StatementView>,
        i: nat,
        env: EnvironmentView,
        last: ObjectView,
        depth: nat,
    )
        requires
            env.well_formed(),
        ensures
            self.spec_eval_block_from(block, i, env, last, depth).1.well_formed(),
            keeps_bindings(self.spec_eval_block_from(block, i, env, last, depth).1, env),
        decreases depth, 2nat, block.len() - i,
    {
        if i < block.len() {
            match block[i as int] {
                StatementView::Let(name, value) => {
                    self.lemma_let_keeps_scopes(name, value, env, depth);
                    let (value, after) = self.spec_eval_let(name, value, env, depth);
                    lemma_keeps_scopes_keeps_bindings(after, env);
                    if let Ok(value) = value {
                        let bound = after.bind(name, value);
                        lemma_bind(after, name, value);
                        self.lemma_block_keeps_bindings(block, i + 1, bound, value, depth);
                        lemma_keeps_bindings_twice(bound, after, env);
                        lemma_keeps_bindings_twice(
                            self.spec_eval_block_from(block, i + 1, bound, value, depth).1,
                            bound,
                            env,
                        );
                    }
                },
                StatementView::Return(value) => {
                    if let Some(value) = value {
                        self.lemma_expression_keeps_scopes(value, env, depth);
                        lemma_keeps_scopes_keeps_bindings(
                            self.spec_eval_expression(value, env, depth).1,
                            env,
                        );
                    } else {
                        lemma_keeps_scopes_keeps_bindings(env, env);
                    }
                },
                StatementView::Expression(expr) => {
                    self.lemma_expression_keeps_scopes(expr, env, depth);
                    let (value, after) = self.spec_eval_expression(expr, env, depth);
                    lemma_keeps_scopes_keeps_bindings(after, env);
                    if let Ok(value) = value {
                        if !(value is Return) {
                            self.lemma_block_keeps_bindings(block, i + 1, after, value, depth);
                            lemma_keeps_bindings_twice(
                                self.spec_eval_block_from(block, i + 1, after, value, depth).1,
                                after,
                                env,
                            );
                        }
                    }
                },
            }
        } else {
            lemma_keeps_scopes_keeps_bindings(env, env);
        }
    }

    /// Evaluating the initializer of a `let` leaves every scope as it was,
    /// and a `let` of a name that the current scope binds fails without
    /// evaluating anything.
    pub proof fn lemma_let_keeps_scopes(
        &self,
        name: Seq<char>,
        value: Option<ExpressionView>,
        env: EnvironmentView,
        depth: nat,
    )
        requires
            env.well_formed(),
        ensures
            self.spec_eval_let(name, value, env, depth).1.well_formed(),
            keeps_scopes(self.spec_eval_let(name, value, env, depth).1, env),
            env.binds(name) ==> self.spec_eval_let(name, value, env, depth) == (
                Err::<ObjectView, EvalErrorView>(EvalErrorView::AlreadyInitialized(name)),
                env,
            ),
            self.spec_eval_let(name, value, env, depth).0 is Ok ==> !env.binds(name)
                && !self.spec_eval_let(name, value, env, depth).1.binds(name),
        decreases depth, 1nat, 0nat,
    {
        if !env.binds(name) {
            if let Some(value) = value {
                self.lemma_expression_keeps_scopes(value, env, depth);
            }
        }
    }

    /// Evaluating a program changes no scope but the current one, which
    /// keeps the bindings it had, whether the program fails or not.
    pub proof fn lemma_program_keeps_bindings(
        &self,
        statements: Seq<StatementView>,
        i: nat,
        env: EnvironmentView,
        last: ObjectView,
    )
        requires
            env.well_formed(),
        ensures
            self.spec_eval_from(statements, i, env, last).1.well_formed(),
            keeps_bindings(self.spec_eval_from(statements, i, env, last).1, env),
        decreases statements.len() - i,
    {
        if i < statements.len() {
            match statements[i as int] {
                StatementView::Let(name, value) => {
                    self.lemma_let_keeps_scopes(name, value, env, self.spec_depth_limit());
                    let (value, after) = self.spec_eval_let(
                        name,
                        value,
                        env,
                        self.spec_depth_limit(),
                    );
                    lemma_keeps_scopes_keeps_bindings(after, env);
                    if let Ok(value) = value {
                        let bound = after.bind(name, value);
                        lemma_bind(after, name, value);
                        self.lemma_program_keeps_bindings(statements, i + 1, bound, value);
                        lemma_keeps_bindings_twice(bound, after, env);
                        lemma_keeps_bindings_twice(
                            self.spec_eval_from(statements, i + 1, bound, value).1,
                            bound,
                            env,
                        );
                    }
                },
                StatementView::Return(_) => {
                    lemma_keeps_scopes_keeps_bindings(env, env);
                },
                StatementView::Expression(expr) => {
                    self.lemma_expression_keeps_scopes(expr, env, self.spec_depth_limit());
                    let (value, after) = self.spec_eval_expression(
                        expr,
                        env,
                        self.spec_depth_limit(),
                    );
                    lemma_keeps_scopes_keeps_bindings(after, env);
                    if let Ok(value) = value {
                        if !(value is Return) {
                            self.lemma_program_keeps_bindings(statements, i + 1, after, value);
                            lemma_keeps_bindings_twice(
                                self.spec_eval_from(statements, i + 1, after, value).1,
                                after,
                                env,
                            );
                        }
                    }
                },
            }
        } else {
            lemma_keeps_scopes_keeps_bindings(env, env);
        }
    }

    /// An expression leaves the scopes exactly as they were, unless its
    /// value is, or wraps, a function that was defined in a scope opened on
    /// the way: what an `if` or a call opened is gone when it has ended.
    pub proof fn lemma_expression_leaves_nothing(
        &self,
        expr: ExpressionView,
        env: EnvironmentView,
        depth: nat,
    )
        requires
            env.well_formed(),
        ensures
            !spec_keeps(self.spec_eval_expression(expr, env, depth).0, env.scopes.len())
                ==> self.spec_eval_expression(expr, env, depth).1 == env,
    {
        self.lemma_expression_keeps_scopes(expr, env, depth);
        let (result, after) = self.spec_eval_expression(expr, env, depth);
        if !spec_keeps(result, env.scopes.len()) {
            assert(after.scopes =~= env.scopes);
        }
    }

    /// A name means after an expression what it meant before: nothing that
    /// an `if` or a call binds is visible once it has ended.
    pub proof fn lemma_expression_keeps_lookups(
        &self,
        expr: ExpressionView,
        env: EnvironmentView,
        depth: nat,
        name: Seq<char>,
    )
        requires
            env.well_formed(),
        ensures
            self.spec_eval_expression(expr, env, depth).1.lookup(env.current, name) == env.lookup(
                env.current,
                name,
            ),
    {
        self.lemma_expression_keeps_scopes(expr, env, depth);
        lemma_same_lookup(self.spec_eval_expression(expr, env, depth).1, env, env.current, name);
    }

    /// A second `let` of a name in one scope fails, whatever its
    /// initializer, and the name keeps the value of the first.
    pub proof fn lemma_redeclaration(
        &self,
        name: Seq<char>,
        first: ObjectView,
        value: Option<ExpressionView>,
        env: EnvironmentView,
    )
        requires
            env.well_formed(),
        ensures
            self.spec_eval(seq![StatementView::Let(name, value)], env.bind(name, first)) == (
                Err::<ObjectView, EvalErrorView>(EvalErrorView::AlreadyInitialized(name)),
                env.bind(name, first),
            ),
            env.bind(name, first).lookup(env.current, name) == Some(first),
    {
        lemma_bind(env, name, first);
        let bound = env.bind(name, first);
        let statements = seq![StatementView::Let(name, value)];
        assert(statements[0] == StatementView::Let(name, value));
        assert(bound.binds(name));
    }
}

} // verus!
