//! Runtime values and the environment that holds them.
//!
//! An [`Environment`] is an arena of scopes. Every scope has its own
//! bindings and names the scope that encloses it by its index, which is
//! smaller than its own, so the chain from any scope outward is finite. One
//! scope is the current one: lookups start there and bindings are made
//! there. A function value names the scope it was defined in by its index.
//!
//! Scopes are opened at the end of the arena and discarded from the end. The
//! evaluator discards what an expression opened as soon as the expression
//! has its value, unless that value is a function defined in one of these
//! scopes, which then live on with it.
use vstd::prelude::*;
use crate::number::Number;
use crate::statement::{
    Statement,
    StatementView,
    copy_names,
    copy_statements,
    names_view,
    statements_view,
};
use crate::token::{Token, TokenView};

verus! {

/// A runtime value.
#[derive(PartialEq, Eq, Debug)]
pub enum Object {
    Number(Number),
    String(String),
    Null,
    /// A value on its way out of a function: a `return` is passed up through
    /// the blocks as this wrapper until the function's own block unwraps it.
    Return(Box<Object>),
    /// A function, with the index of the scope it was defined in.
    Function { params: Vec<String>, body: Vec<Statement>, env: usize },
}

/// The mathematical value of an [`Object`].
pub enum ObjectView {
    Number(Number),
    String(Seq<char>),
    Null,
    Return(Box<ObjectView>),
    Function { params: Seq<Seq<char>>, body: Seq<StatementView>, env: nat },
}

/// The kind of a value, for error reports.
#[derive(Clone, Copy, PartialEq, Eq, Debug)]
pub enum Kind {
    Number,
    String,
    Null,
    Return,
    Function,
}

/// The view of a value: texts as sequences of characters, a function by the
/// views of its parameters and its body.
pub open spec fn object_view(o: Object) -> ObjectView
    decreases o,
{
    match o {
        Object::Number(n) => ObjectView::Number(n),
        Object::String(s) => ObjectView::String(s@),
        Object::Null => ObjectView::Null,
        Object::Return(inner) => ObjectView::Return(Box::new(object_view(*inner))),
        Object::Function { params, body, env } => ObjectView::Function {
            params: names_view(params@),
            body: statements_view(body@),
            env: env as nat,
        },
    }
}

impl View for Object {
    type V = ObjectView;

    open spec fn view(&self) -> ObjectView {
        object_view(*self)
    }
}

/// The kind of a value.
pub open spec fn spec_kind(o: ObjectView) -> Kind {
    match o {
        ObjectView::Number(_) => Kind::Number,
        ObjectView::String(_) => Kind::String,
        ObjectView::Null => Kind::Null,
        ObjectView::Return(_) => Kind::Return,
        ObjectView::Function { .. } => Kind::Function,
    }
}

/// Whether a value is, or wraps, a function that was defined in one of the
/// scopes from `mark` on.
pub open spec fn spec_refers_from(o: ObjectView, mark: nat) -> bool
    decreases o,
{
    match o {
        ObjectView::Function { env, .. } => env >= mark,
        ObjectView::Return(inner) => spec_refers_from(*inner, mark),
        _ => false,
    }
}

/// A copy of a value.
pub fn copy_object(o: &Object) -> (copy: Object)
    ensures
        copy@ == o@,
    decreases o,
{
    match o {
        Object::Number(n) => Object::Number(*n),
        Object::String(s) => Object::String(s.clone()),
        Object::Null => Object::Null,
        Object::Return(inner) => Object::Return(Box::new(copy_object(inner))),
        Object::Function { params, body, env } => Object::Function {
            params: copy_names(params),
            body: copy_statements(body),
            env: *env,
        },
    }
}

impl Clone for Object {
    fn clone(&self) -> (copy: Object)
        ensures
            copy@ == self@,
    {
        copy_object(self)
    }
}

impl Object {
    /// Whether this value is, or wraps, a function that was defined in one of
    /// the scopes from `mark` on.
    pub fn refers_from(&self, mark: usize) -> (r: bool)
        ensures
            r == spec_refers_from(self@, mark as nat),
        decreases self,
    {
        match self {
            Object::Function { env, .. } => *env >= mark,
            Object::Return(inner) => inner.refers_from(mark),
            _ => false,
        }
    }

    /// The kind of this value.
    pub fn kind(&self) -> (kind: Kind)
        ensures
            kind == spec_kind(self@),
    {
        match self {
            Object::Number(_) => Kind::Number,
            Object::String(_) => Kind::String,
            Object::Null => Kind::Null,
            Object::Return(_) => Kind::Return,
            Object::Function { .. } => Kind::Function,
        }
    }
}

/// Why an evaluation failed.
#[derive(PartialEq, Eq, Debug)]
pub enum EvalError {
    /// `let` of a name that the current scope already binds.
    AlreadyInitialized(String),
    /// A name that no scope of the chain binds.
    UndefinedVariable(String),
    /// `return`, or a value on its way out of a function, at the top level.
    ReturnOutsideFunction,
    /// An operator met an operand of a kind it is not defined for.
    InvalidOperand { operator: Token, kind: Kind },
    /// A token that is no prefix operator, or no infix operator, stood in
    /// the place of one.
    InvalidOperator(Token),
    DivisionByZero,
    /// A call of a value that is no function.
    NotAFunction(Kind),
    /// A call with more or fewer arguments than the function has parameters.
    WrongArgumentCount { expected: usize, found: usize },
    /// A function value names a scope that the environment does not have.
    UnknownScope(usize),
    /// A numeric literal that the arithmetic does not accept.
    InvalidNumber(String),
    /// Expressions or calls are nested more deeply than the evaluator goes.
    DepthExceeded,
}

/// The mathematical value of an [`EvalError`].
pub enum EvalErrorView {
    AlreadyInitialized(Seq<char>),
    UndefinedVariable(Seq<char>),
    ReturnOutsideFunction,
    InvalidOperand { operator: TokenView, kind: Kind },
    InvalidOperator(TokenView),
    DivisionByZero,
    NotAFunction(Kind),
    WrongArgumentCount { expected: usize, found: usize },
    UnknownScope(usize),
    InvalidNumber(Seq<char>),
    DepthExceeded,
}

impl View for EvalError {
    type V = EvalErrorView;

    open spec fn view(&self) -> EvalErrorView {
        match self {
            EvalError::AlreadyInitialized(name) => EvalErrorView::AlreadyInitialized(name@),
            EvalError::UndefinedVariable(name) => EvalErrorView::UndefinedVariable(name@),
            EvalError::ReturnOutsideFunction => EvalErrorView::ReturnOutsideFunction,
            EvalError::InvalidOperand { operator, kind } => EvalErrorView::InvalidOperand {
                operator: operator@,
                kind: *kind,
            },
            EvalError::InvalidOperator(operator) => EvalErrorView::InvalidOperator(operator@),
            EvalError::DivisionByZero => EvalErrorView::DivisionByZero,
            EvalError::NotAFunction(kind) => EvalErrorView::NotAFunction(*kind),
            EvalError::WrongArgumentCount { expected, found } => EvalErrorView::WrongArgumentCount {
                expected: *expected,
                found: *found,
            },
            EvalError::UnknownScope(scope) => EvalErrorView::UnknownScope(*scope),
            EvalError::InvalidNumber(literal) => EvalErrorView::InvalidNumber(literal@),
            EvalError::DepthExceeded => EvalErrorView::DepthExceeded,
        }
    }
}

/// The result of an evaluation, as the contracts speak of it.
pub open spec fn result_view(r: Result<Object, EvalError>) -> Result<ObjectView, EvalErrorView> {
    match r {
        Ok(o) => Ok(o@),
        Err(e) => Err(e@),
    }
}

/// One scope: its bindings in the order they were made, the scope that
/// encloses it, and whether it is the scope of a function's body.
pub struct Scope {
    variables: Vec<(String, Object)>,
    outer: Option<usize>,
    in_function: bool,
}

/// The mathematical value of a [`Scope`]: its bindings as a map.
pub struct ScopeView {
    pub variables: Map<Seq<char>, ObjectView>,
    pub outer: Option<nat>,
    pub in_function: bool,
}

/// The bindings of a scope as a map; where a name occurs twice the later
/// binding counts.
pub open spec fn bindings_view(variables: Seq<(String, Object)>) -> Map<Seq<char>, ObjectView>
    decreases variables.len(),
{
    if variables.len() == 0 {
        Map::empty()
    } else {
        bindings_view(variables.drop_last()).insert(variables.last().0@, variables.last().1@)
    }
}

impl View for Scope {
    type V = ScopeView;

    closed spec fn view(&self) -> ScopeView {
        ScopeView {
            variables: bindings_view(self.variables@),
            outer: match self.outer {
                Some(outer) => Some(outer as nat),
                None => None,
            },
            in_function: self.in_function,
        }
    }
}

/// A chain of scopes with a current scope.
pub struct Environment {
    scopes: Vec<Scope>,
    current: usize,
}

/// The mathematical value of an [`Environment`]: its scopes in the order
/// they were opened, and the index of the current one.
pub struct EnvironmentView {
    pub scopes: Seq<ScopeView>,
    pub current: nat,
}

impl EnvironmentView {
    /// The current scope exists, and every scope is enclosed by an earlier
    /// one or by none.
    pub open spec fn well_formed(self) -> bool {
        &&& self.current < self.scopes.len()
        &&& forall|i: int|
            0 <= i < self.scopes.len() ==> (#[trigger] self.scopes[i].outer matches Some(outer)
                ==> outer < i)
    }

    /// The value that `name` has seen from `scope`: that of the nearest
    /// scope that binds it, going outward.
    pub open spec fn lookup(self, scope: nat, name: Seq<char>) -> Option<ObjectView>
        decreases scope,
    {
        if scope >= self.scopes.len() {
            None
        } else if self.scopes[scope as int].variables.contains_key(name) {
            Some(self.scopes[scope as int].variables[name])
        } else {
            match self.scopes[scope as int].outer {
                Some(outer) => if outer < scope {
                    self.lookup(outer, name)
                } else {
                    None
                },
                None => None,
            }
        }
    }

    /// Whether the current scope itself binds `name`.
    pub open spec fn binds(self, name: Seq<char>) -> bool {
        self.scopes[self.current as int].variables.contains_key(name)
    }

    /// With `name` bound to `value` in the current scope.
    pub open spec fn bind(self, name: Seq<char>, value: ObjectView) -> EnvironmentView {
        let scope = self.scopes[self.current as int];
        EnvironmentView {
            scopes: self.scopes.update(
                self.current as int,
                ScopeView { variables: scope.variables.insert(name, value), ..scope },
            ),
            current: self.current,
        }
    }

    /// With a new, empty scope enclosed by `outer`, which becomes the
    /// current scope.
    pub open spec fn enter(self, outer: nat, in_function: bool) -> EnvironmentView {
        EnvironmentView {
            scopes: self.scopes.push(
                ScopeView { variables: Map::empty(), outer: Some(outer), in_function },
            ),
            current: self.scopes.len(),
        }
    }

    /// With `scope` as the current scope.
    pub open spec fn at(self, scope: nat) -> EnvironmentView {
        EnvironmentView { scopes: self.scopes, current: scope }
    }

    /// Without the scopes from `mark` on, unless they are to be kept.
    pub open spec fn release(self, mark: nat, keep: bool) -> EnvironmentView {
        if keep || mark >= self.scopes.len() {
            self
        } else {
            EnvironmentView { scopes: self.scopes.take(mark as int), current: self.current }
        }
    }

    /// Whether the current scope is that of a function's body.
    pub open spec fn in_function(self) -> bool {
        self.scopes[self.current as int].in_function
    }

    /// A single top-level scope without bindings.
    pub open spec fn top_level() -> EnvironmentView {
        EnvironmentView {
            scopes: seq![ScopeView { variables: Map::empty(), outer: None, in_function: false }],
            current: 0,
        }
    }
}

impl View for Environment {
    type V = EnvironmentView;

    closed spec fn view(&self) -> EnvironmentView {
        EnvironmentView {
            scopes: Seq::new(self.scopes@.len(), |i: int| self.scopes@[i]@),
            current: self.current as nat,
        }
    }
}

/// The position of the last binding of `name` in `variables`, if there is
/// one.
fn find(variables: &Vec<(String, Object)>, name: &str) -> (found: Option<usize>)
    ensures
        match found {
            Some(i) => i < variables.len() && bindings_view(variables@).contains_key(name@)
                && bindings_view(variables@)[name@] == variables@[i as int].1@,
            None => !bindings_view(variables@).contains_key(name@),
        },
{
    let mut i = variables.len();
    assert(variables@.take(i as int) =~= variables@);
    while i > 0
        invariant
            i <= variables.len(),
            bindings_view(variables@).contains_key(name@) == bindings_view(
                variables@.take(i as int),
            ).contains_key(name@),
            bindings_view(variables@).contains_key(name@) ==> bindings_view(variables@)[name@]
                == bindings_view(variables@.take(i as int))[name@],
        decreases i,
    {
        proof {
            assert(variables@.take(i as int).drop_last() =~= variables@.take(i - 1));
            assert(variables@.take(i as int).last() == variables@[i - 1]);
        }
        if same_text(variables[i - 1].0.as_str(), name) {
            return Some(i - 1);
        }
        i = i - 1;
    }
    proof {
        assert(variables@.take(0) =~= Seq::empty());
    }
    None
}

/// Whether two texts are the same.
pub fn same_text(a: &str, b: &str) -> (r: bool)
    ensures
        r == (a@ == b@),
{
    let n = a.unicode_len();
    if n != b.unicode_len() {
        return false;
    }
    let mut i: usize = 0;
    while i < n
        invariant
            i <= n,
            n == a@.len(),
            n == b@.len(),
            a@.take(i as int) == b@.take(i as int),
        decreases n - i,
    {
        if a.get_char(i) != b.get_char(i) {
            return false;
        }
        i = i + 1;
        assert(a@.take(i as int) =~= a@.take(i - 1).push(a@[i - 1]));
        assert(b@.take(i as int) =~= b@.take(i - 1).push(b@[i - 1]));
    }
    assert(a@.take(n as int) =~= a@);
    assert(b@.take(n as int) =~= b@);
    true
}

impl Environment {
    /// The current scope exists, and every scope is enclosed by an earlier
    /// one or by none.
    pub open spec fn well_formed(&self) -> bool {
        self@.well_formed()
    }

    /// A fresh top-level environment where `outer_option` is `None`; else
    /// the given environment with a new scope inside its current one, which
    /// becomes the current scope.
    pub fn new(outer_option: Option<Environment>) -> (environment: Environment)
        requires
            outer_option matches Some(outer) ==> outer.well_formed(),
        ensures
            environment.well_formed(),
            environment@ == (match outer_option {
                None => EnvironmentView::top_level(),
                Some(outer) => outer@.enter(outer@.current, false),
            }),
    {
        match outer_option {
            None => {
                let mut scopes: Vec<Scope> = Vec::new();
                scopes.push(Scope { variables: Vec::new(), outer: None, in_function: false });
                let environment = Environment { scopes, current: 0 };
                assert(environment@.scopes =~= EnvironmentView::top_level().scopes);
                environment
            },
            Some(outer) => {
                let mut environment = outer;
                let current = environment.current;
                environment.enter(current, false);
                environment
            },
        }
    }

    /// The value of `name` seen from the current scope.
    pub fn get(&self, variable_name: &str) -> (result: Result<Object, EvalError>)
        requires
            self.well_formed(),
        ensures
            result_view(result) == (match self@.lookup(self@.current, variable_name@) {
                Some(value) => Ok::<ObjectView, EvalErrorView>(value),
                None => Err::<ObjectView, EvalErrorView>(
                    EvalErrorView::UndefinedVariable(variable_name@),
                ),
            }),
    {
        let mut scope = self.current;
        loop
            invariant
                self.well_formed(),
                scope < self.scopes.len(),
                self@.lookup(self@.current, variable_name@) == self@.lookup(
                    scope as nat,
                    variable_name@,
                ),
            decreases scope,
        {
            assert(self@.scopes[scope as int] == self.scopes@[scope as int]@);
            match find(&self.scopes[scope].variables, variable_name) {
                Some(i) => {
                    return Ok(copy_object(&self.scopes[scope].variables[i].1));
                },
                None => {},
            }
            match self.scopes[scope].outer {
                Some(outer) => {
                    scope = outer;
                },
                None => {
                    return Err(EvalError::UndefinedVariable(String::from_str(variable_name)));
                },
            }
        }
    }

    /// Whether the current scope itself binds `name`.
    pub fn contains(&self, name: &str) -> (r: bool)
        requires
            self.well_formed(),
        ensures
            r == self@.binds(name@),
    {
        assert(self@.scopes[self.current as int] == self.scopes@[self.current as int]@);
        find(&self.scopes[self.current].variables, name).is_some()
    }

    /// Binds `name` to `value` in the current scope.
    pub fn insert(&mut self, name: String, value: Object)
        requires
            old(self).well_formed(),
        ensures
            final(self).well_formed(),
            final(self)@ == old(self)@.bind(name@, value@),
            final(self)@.scopes.len() == old(self)@.scopes.len(),
    {
        let current = self.current;
        let ghost before = self.scopes@;
        let ghost pair = (name, value);
        self.scopes[current].variables.push((name, value));
        proof {
            let after = self.scopes@[current as int].variables@;
            assert(after.drop_last() =~= before[current as int].variables@);
            assert(after.last() == pair);
            assert(self@.scopes =~= old(self)@.bind(name@, value@).scopes);
        }
    }

    /// Opens a new, empty scope enclosed by `outer` and makes it the current
    /// scope.
    pub fn enter(&mut self, outer: usize, in_function: bool)
        requires
            old(self).well_formed(),
            outer < old(self)@.scopes.len(),
        ensures
            final(self).well_formed(),
            final(self)@ == old(self)@.enter(outer as nat, in_function),
    {
        let index = self.scopes.len();
        self.scopes.push(Scope { variables: Vec::new(), outer: Some(outer), in_function });
        self.current = index;
        proof {
            assert(self@.scopes =~= old(self)@.enter(outer as nat, in_function).scopes);
        }
    }

    /// Makes `scope` the current scope.
    pub fn set_current(&mut self, scope: usize)
        requires
            old(self).well_formed(),
            scope < old(self)@.scopes.len(),
        ensures
            final(self).well_formed(),
            final(self)@ == old(self)@.at(scope as nat),
    {
        self.current = scope;
        assert(self@.scopes =~= old(self)@.scopes);
    }

    /// Discards the scopes from `mark` on, unless they are to be kept.
    pub fn release(&mut self, mark: usize, keep: bool)
        requires
            old(self).well_formed(),
            old(self)@.current < mark,
        ensures
            final(self).well_formed(),
            final(self)@ == old(self)@.release(mark as nat, keep),
    {
        if !keep && mark < self.scopes.len() {
            self.scopes.truncate(mark);
            proof {
                assert(self@.scopes =~= old(self)@.scopes.take(mark as int));
            }
        }
    }

    /// The index of the current scope.
    pub fn current(&self) -> (scope: usize)
        requires
            self.well_formed(),
        ensures
            scope == self@.current,
            scope < self@.scopes.len(),
    {
        self.current
    }

    /// The number of scopes.
    pub fn len(&self) -> (n: usize)
        ensures
            n == self@.scopes.len(),
    {
        self.scopes.len()
    }

    /// Whether the current scope is that of a function's body.
    pub fn in_function(&self) -> (r: bool)
        requires
            self.well_formed(),
        ensures
            r == self@.in_function(),
    {
        assert(self@.scopes[self.current as int] == self.scopes@[self.current as int]@);
        self.scopes[self.current].in_function
    }
}

} // verus!
