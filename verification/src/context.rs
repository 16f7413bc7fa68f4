//! Contexts: the variables and functions that programs are evaluated against.

use std::convert::Infallible;
use std::sync::Arc;
use vstd::prelude::*;

use crate::error::ExecutionError;
use crate::expr::{plain_eval, plain_eval_all, possible_eval, resolve_all_outcome, result_view, Expression};
use crate::functions::{may_become, Env, Function, FunctionRegistry, IntoFunction};
use crate::prepared::PreparedValue;
use crate::table::Table;
use crate::value::Value;

verus! {

/// A custom source of variables that is consulted before the variables added to
/// the context. This allows dynamic variables, or avoiding map lookups.
pub trait VariableResolver: Send + Sync {
    fn resolve(&self, variable: &str) -> Option<Value>;
}

/// Whether `r` is an answer that `resolver` can give when asked for `name`.
pub open spec fn may_answer<R: VariableResolver + ?Sized>(resolver: &R, name: &str, r: Option<Value>) -> bool {
    call_ensures(R::resolve, (resolver, name), r)
}

/// Whether `r` is an answer that `resolver` can give when asked for a name
/// spelled `name`.
pub open spec fn may_answer_name<R: VariableResolver + ?Sized>(
    resolver: &R,
    name: Seq<char>,
    r: Option<Value>,
) -> bool {
    exists|s: &str| s@ == name && #[trigger] may_answer(resolver, s, r)
}

impl<T: VariableResolver> VariableResolver for Box<T> {
    fn resolve(&self, variable: &str) -> (r: Option<Value>)
        ensures
            may_answer(&**self, variable, r),
    {
        (**self).resolve(variable)
    }
}

impl<T: VariableResolver> VariableResolver for Arc<T> {
    fn resolve(&self, variable: &str) -> (r: Option<Value>)
        ensures
            may_answer(&**self, variable, r),
    {
        (**self).resolve(variable)
    }
}

impl<'r, T: VariableResolver> VariableResolver for &'r T {
    fn resolve(&self, variable: &str) -> (r: Option<Value>)
        ensures
            may_answer(*self, variable, r),
    {
        (**self).resolve(variable)
    }
}

/// Things that can be turned into a CEL value, possibly failing.
pub trait TryIntoValue {
    type Error;

    fn try_into_value(self) -> Result<Value, Self::Error>;
}

/// Whether `r` is a result that converting `value` into a CEL value can give.
pub open spec fn may_convert<V: TryIntoValue>(value: V, r: Result<Value, V::Error>) -> bool {
    call_ensures(V::try_into_value, (value,), r)
}

impl TryIntoValue for Value {
    type Error = Infallible;

    fn try_into_value(self) -> (r: Result<Value, Infallible>)
        ensures
            r == Ok::<Value, Infallible>(self),
    {
        Ok(self)
    }
}

impl TryIntoValue for i64 {
    type Error = Infallible;

    fn try_into_value(self) -> (r: Result<Value, Infallible>)
        ensures
            r == Ok::<Value, Infallible>(Value::Int(self)),
    {
        Ok(Value::Int(self))
    }
}

impl TryIntoValue for u64 {
    type Error = Infallible;

    fn try_into_value(self) -> (r: Result<Value, Infallible>)
        ensures
            r == Ok::<Value, Infallible>(Value::UInt(self)),
    {
        Ok(Value::UInt(self))
    }
}

impl TryIntoValue for bool {
    type Error = Infallible;

    fn try_into_value(self) -> (r: Result<Value, Infallible>)
        ensures
            r == Ok::<Value, Infallible>(Value::Bool(self)),
    {
        Ok(Value::Bool(self))
    }
}

impl TryIntoValue for String {
    type Error = Infallible;

    fn try_into_value(self) -> (r: Result<Value, Infallible>)
        ensures
            r == Ok::<Value, Infallible>(Value::String(Arc::new(self))),
    {
        Ok(Value::String(Arc::new(self)))
    }
}

/// One scope of a context as the contracts see it: its variables, by name, and
/// its resolver, when one is set.
pub struct Scope<'a> {
    pub variables: Map<Seq<char>, Value>,
    pub resolver: Option<&'a dyn VariableResolver>,
}

/// A scope with no variables and no resolver.
pub open spec fn empty_scope<'a>() -> Scope<'a> {
    Scope { variables: Map::empty(), resolver: None }
}

/// `scope` with `name` set to `value`.
pub open spec fn with_variable<'a>(scope: Scope<'a>, name: Seq<char>, value: Value) -> Scope<'a> {
    Scope { variables: scope.variables.insert(name, value), resolver: scope.resolver }
}

/// `scope` with its resolver replaced by `resolver`.
pub open spec fn with_resolver<'a>(
    scope: Scope<'a>,
    resolver: Option<&'a dyn VariableResolver>,
) -> Scope<'a> {
    Scope { variables: scope.variables, resolver }
}

/// Whether `r` is an answer that the resolver of `scope` can give for `name`;
/// a scope without a resolver answers nothing.
pub open spec fn scope_may_answer<'a>(scope: Scope<'a>, name: Seq<char>, r: Option<Value>) -> bool {
    match scope.resolver {
        Some(res) => may_answer_name(res, name, r),
        None => r is None,
    }
}

/// Whether the resolver of `scope`, if any, can answer nothing but `None` for
/// `name`.
pub open spec fn silent_on<'a>(scope: Scope<'a>, name: Seq<char>) -> bool {
    forall|r: Option<Value>| #[trigger] scope_may_answer(scope, name, r) ==> r is None
}

/// Whether no scope of the chain has a resolver.
pub open spec fn without_resolvers<'a>(scopes: Seq<Scope<'a>>) -> bool {
    forall|i: int| 0 <= i < scopes.len() ==> (#[trigger] scopes[i]).resolver is None
}

/// The variables of a table, by name, taken by their values.
pub open spec fn variables_view(t: Table<String, PreparedValue>) -> Map<Seq<char>, Value> {
    t@.map_values(|p: PreparedValue| p@)
}

/// The value that `name` gets in a chain of scopes, innermost first, from the
/// scopes' variables alone: what a lookup gives when no resolver answers.
pub open spec fn plain_lookup<'a>(scopes: Seq<Scope<'a>>, name: Seq<char>) -> Option<Value>
    decreases scopes.len(),
{
    if scopes.len() == 0 {
        None
    } else if scopes[0].variables.contains_key(name) {
        Some(scopes[0].variables[name])
    } else {
        plain_lookup(scopes.drop_first(), name)
    }
}

/// Whether `v` is a possible outcome of looking `name` up in a chain of scopes,
/// innermost first: in each scope the resolver is asked first, and what it
/// answers, if anything, is the value; when it answers nothing, the scope's own
/// variable of that name is the value; when there is none, the enclosing scopes
/// are asked in turn.
pub open spec fn possible_lookup<'a>(scopes: Seq<Scope<'a>>, name: Seq<char>, v: Option<Value>) -> bool
    decreases scopes.len(),
{
    if scopes.len() == 0 {
        v is None
    } else {
        ||| v is Some && scope_may_answer(scopes[0], name, v)
        ||| scope_may_answer(scopes[0], name, None) && if scopes[0].variables.contains_key(name) {
            v == Some(scopes[0].variables[name])
        } else {
            possible_lookup(scopes.drop_first(), name, v)
        }
    }
}

/// The value held by an optional prepared value.
pub open spec fn prepared_view(p: Option<PreparedValue>) -> Option<Value> {
    match p {
        Some(v) => Some(v@),
        None => None,
    }
}

/// The answer of `resolver`, if one is set.
fn consult(resolver: Option<&dyn VariableResolver>, name: &str) -> (r: Option<Value>)
    ensures
        match resolver {
            Some(res) => may_answer(res, name, r),
            None => r is None,
        },
{
    match resolver {
        Some(res) => res.resolve(name),
        None => None,
    }
}

/// Context is a collection of variables and functions that can be used by the
/// interpreter to resolve expressions.
///
/// The context can be either a root context or a child context. A child context
/// is created by calling `.new_inner_scope()`. The child has its own variables
/// (which can be added to), but it also references its parent, so variables can
/// be overridden within the child while the parent's variables stay visible.
/// Functions and the environment belong to the root.
pub enum Context<'a> {
    Root {
        functions: FunctionRegistry,
        variables: Table<String, PreparedValue>,
        resolver: Option<&'a dyn VariableResolver>,
        env: Arc<Env>,
    },
    Child {
        parent: &'a Context<'a>,
        variables: Table<String, PreparedValue>,
        resolver: Option<&'a dyn VariableResolver>,
    },
}

impl<'a> Context<'a> {
    /// The scopes of this context, innermost first; the last one is the root's.
    pub open spec fn scopes(&self) -> Seq<Scope<'a>>
        decreases self,
    {
        match self {
            Context::Root { variables, resolver, .. } => seq![
                Scope { variables: variables_view(*variables), resolver: *resolver },
            ],
            Context::Child { parent, variables, resolver } => seq![
                Scope { variables: variables_view(*variables), resolver: *resolver },
            ] + parent.scopes(),
        }
    }

    /// The functions of the root context.
    pub open spec fn root_functions(&self) -> Map<Seq<char>, Function>
        decreases self,
    {
        match self {
            Context::Root { functions, .. } => functions@,
            Context::Child { parent, .. } => parent.root_functions(),
        }
    }

    /// The environment of the root context.
    pub open spec fn root_env(&self) -> Env
        decreases self,
    {
        match self {
            Context::Root { env, .. } => **env,
            Context::Child { parent, .. } => parent.root_env(),
        }
    }

    /// Whether this is a root context.
    pub open spec fn is_root(&self) -> bool {
        self is Root
    }

    proof fn lemma_scopes_nonempty(&self)
        ensures
            self.scopes().len() >= 1,
        decreases self,
    {
        match self {
            Context::Root { .. } => {},
            Context::Child { parent, .. } => {
                parent.lemma_scopes_nonempty();
            },
        }
    }

    /// Adds a variable, converting `value` into a CEL value first; when the
    /// conversion fails, its error is returned and the context is unchanged.
    pub fn add_variable<V: TryIntoValue>(&mut self, name: &str, value: V) -> (r: Result<(), V::Error>)
        ensures
            match r {
                Ok(_) => exists|v: Value|
                    #[trigger] may_convert(value, Ok(v)) && final(self).scopes() == old(
                        self,
                    ).scopes().update(0, with_variable(old(self).scopes()[0], name@, v)),
                Err(e) => may_convert(value, Err(e)) && *final(self) == *old(self),
            },
            final(self).root_functions() == old(self).root_functions(),
            final(self).root_env() == old(self).root_env(),
            final(self).is_root() == old(self).is_root(),
    {
        match value.try_into_value() {
            Ok(v) => {
                proof {
                    assert(may_convert(value, Ok(v)));
                }
                self.add_variable_from_value(name, v);
                Ok(())
            },
            Err(e) => Err(e),
        }
    }

    /// Adds or replaces a variable with the value `value`.
    pub fn add_variable_from_value(&mut self, name: &str, value: Value)
        ensures
            final(self).scopes() == old(self).scopes().update(
                0,
                with_variable(old(self).scopes()[0], name@, value),
            ),
            final(self).root_functions() == old(self).root_functions(),
            final(self).root_env() == old(self).root_env(),
            final(self).is_root() == old(self).is_root(),
    {
        self.add_prepared_variable(name, PreparedValue::from_boxed(Box::new(value)));
    }

    /// Adds or replaces a variable using a prepared shared value.
    ///
    /// Inserting a clone of a retained [`PreparedValue`] does not copy the value.
    pub fn add_prepared_variable(&mut self, name: &str, value: PreparedValue)
        ensures
            final(self).scopes() == old(self).scopes().update(
                0,
                with_variable(old(self).scopes()[0], name@, value@),
            ),
            final(self).root_functions() == old(self).root_functions(),
            final(self).root_env() == old(self).root_env(),
            final(self).is_root() == old(self).is_root(),
    {
        let key = name.to_owned();
        match self {
            Context::Root { variables, .. } => {
                let ghost before = *variables;
                variables.insert(key, value);
                proof {
                    assert(variables_view(*variables) =~= variables_view(before).insert(
                        name@,
                        value@,
                    ));
                }
            },
            Context::Child { variables, .. } => {
                let ghost before = *variables;
                variables.insert(key, value);
                proof {
                    assert(variables_view(*variables) =~= variables_view(before).insert(
                        name@,
                        value@,
                    ));
                }
            },
        }
        proof {
            assert(final(self).scopes() =~= old(self).scopes().update(
                0,
                with_variable(old(self).scopes()[0], name@, value@),
            ));
        }
    }

    /// Adds or replaces a variable with a value already in the evaluator's
    /// representation.
    #[allow(dead_code)]
    pub(crate) fn add_variable_as_val(&mut self, name: &str, value: Box<Value>)
        ensures
            final(self).scopes() == old(self).scopes().update(
                0,
                with_variable(old(self).scopes()[0], name@, *value),
            ),
            final(self).root_functions() == old(self).root_functions(),
            final(self).root_env() == old(self).root_env(),
            final(self).is_root() == old(self).is_root(),
    {
        self.add_prepared_variable(name, PreparedValue::from_boxed(value));
    }

    /// Sets the resolver of this context's own scope; it is consulted before the
    /// scope's variables.
    pub fn set_variable_resolver(&mut self, r: &'a dyn VariableResolver)
        ensures
            final(self).scopes().len() == old(self).scopes().len(),
            final(self).scopes()[0].resolver == Some(r),
            final(self).scopes()[0].variables == old(self).scopes()[0].variables,
            final(self).scopes().drop_first() == old(self).scopes().drop_first(),
            final(self).root_functions() == old(self).root_functions(),
            final(self).root_env() == old(self).root_env(),
            final(self).is_root() == old(self).is_root(),
    {
        // `Some(r)` is bound without a stated type, so that `r` is stored as it
        // was given, with no conversion of the reference.
        let given = Some(r);
        match self {
            Context::Root { resolver, .. } => {
                *resolver = given;
            },
            Context::Child { resolver, .. } => {
                *resolver = given;
            },
        }
        proof {
            old(self).lemma_scopes_nonempty();
            assert(final(self).scopes().drop_first() =~= old(self).scopes().drop_first());
        }
    }

    /// Looks a variable up: in each scope from the innermost outward, the scope's
    /// resolver is asked first, then its own variables.
    pub fn get_variable(&self, name: &str) -> (r: Option<PreparedValue>)
        ensures
            possible_lookup(self.scopes(), name@, prepared_view(r)),
            without_resolvers(self.scopes()) ==> prepared_view(r) == plain_lookup(
                self.scopes(),
                name@,
            ),
        decreases self,
    {
        let key = name.to_owned();
        match self {
            Context::Child { variables, parent, resolver } => {
                let ghost s = self.scopes();
                proof {
                    assert(s.drop_first() =~= parent.scopes());
                }
                let answer = consult(*resolver, name);
                proof {
                    if resolver is Some {
                        assert(may_answer(resolver->0, name, answer));
                    }
                    assert(scope_may_answer(s[0], name@, answer));
                    if without_resolvers(s) {
                        assert(s[0].resolver is None);
                        assert forall|i: int| 0 <= i < parent.scopes().len() implies (
                        #[trigger] parent.scopes()[i]).resolver is None by {
                            assert(parent.scopes()[i] == s[i + 1]);
                        }
                    }
                }
                match answer {
                    Some(v) => Some(PreparedValue::from_boxed(Box::new(v))),
                    None => match variables.get(&key) {
                        Some(p) => Some(p.clone()),
                        None => parent.get_variable(name),
                    },
                }
            },
            Context::Root { variables, resolver, .. } => {
                let ghost s = self.scopes();
                proof {
                    assert(s.drop_first().len() == 0);
                    assert(possible_lookup(s.drop_first(), name@, None));
                    assert(plain_lookup(s.drop_first(), name@) is None);
                }
                let answer = consult(*resolver, name);
                proof {
                    if resolver is Some {
                        assert(may_answer(resolver->0, name, answer));
                    }
                    assert(scope_may_answer(s[0], name@, answer));
                    if without_resolvers(s) {
                        assert(s[0].resolver is None);
                    }
                }
                match answer {
                    Some(v) => Some(PreparedValue::from_boxed(Box::new(v))),
                    None => match variables.get(&key) {
                        Some(p) => Some(p.clone()),
                        None => None,
                    },
                }
            },
        }
    }

    /// The environment of the root context.
    pub fn env(&self) -> (r: &Env)
        ensures
            *r == self.root_env(),
        decreases self,
    {
        match self {
            Context::Root { env, .. } => &**env,
            Context::Child { parent, .. } => parent.env(),
        }
    }

    /// The function registered under `name` in the root context, if any.
    pub fn get_function(&self, name: &str) -> (r: Option<&Function>)
        ensures
            match r {
                Some(f) => self.root_functions().contains_key(name@) && *f
                    == self.root_functions()[name@],
                None => !self.root_functions().contains_key(name@),
            },
        decreases self,
    {
        match self {
            Context::Root { functions, .. } => functions.get(name),
            Context::Child { parent, .. } => parent.get_function(name),
        }
    }

    /// Registers a function under `name`, replacing what `name` held before.
    /// Functions belong to the root context: on a child context this does
    /// nothing.
    pub fn add_function<F: IntoFunction + 'static>(&mut self, name: &str, value: F)
        ensures
            old(self).is_root() ==> exists|f: Function|
                #[trigger] may_become(value, f) && final(self).root_functions() == old(
                    self,
                ).root_functions().insert(name@, f),
            old(self).is_root() ==> final(self).scopes() == old(self).scopes(),
            old(self).is_root() ==> final(self).root_env() == old(self).root_env(),
            final(self).is_root() == old(self).is_root(),
            !old(self).is_root() ==> *final(self) == *old(self),
    {
        match self {
            Context::Root { functions, .. } => {
                let function = value.into_function();
                proof {
                    assert(may_become(value, function));
                }
                FunctionRegistry::add(functions, name, function);
            },
            Context::Child { .. } => {},
        }
    }

    /// Evaluates `expr` against this context.
    pub fn resolve(&self, expr: &Expression) -> (r: Result<Value, ExecutionError>)
        ensures
            possible_eval(self.scopes(), *expr, result_view(r)),
            without_resolvers(self.scopes()) ==> result_view(r) == plain_eval(self.scopes(), *expr),
    {
        Value::resolve(expr, self)
    }

    /// Evaluates each of `exprs` against this context, in order, and gives the
    /// list of their values, or the first error.
    pub fn resolve_all(&self, exprs: &[Expression]) -> (r: Result<Value, ExecutionError>)
        ensures
            resolve_all_outcome(self.scopes(), exprs@, r),
            without_resolvers(self.scopes()) ==> match plain_eval_all(self.scopes(), exprs@) {
                Ok(vs) => r matches Ok(v) && v matches Value::List(l) && l@ == vs,
                Err(e) => r matches Err(err) && err@ == e,
            },
    {
        Value::resolve_all(exprs, self)
    }

    /// A child context of this one, with no variables and no resolver of its own.
    pub fn new_inner_scope(&self) -> (r: Context<'_>)
        ensures
            r.scopes() == seq![empty_scope()] + self.scopes(),
            r.root_functions() == self.root_functions(),
            r.root_env() == self.root_env(),
            !r.is_root(),
    {
        let variables = Table::new();
        proof {
            assert(variables_view(variables) =~= Map::empty());
        }
        let r = Context::Child { parent: self, variables, resolver: None };
        proof {
            assert(r.scopes() =~= seq![empty_scope()] + self.scopes());
        }
        r
    }

    /// Constructs a new empty context with no variables or functions, whose
    /// environment lacks the standard library.
    ///
    /// For a context with the standard library, use [`Context::default`].
    pub fn empty() -> (r: Self)
        ensures
            r.is_root(),
            r.scopes() == seq![empty_scope()],
            r.root_functions() == Map::<Seq<char>, Function>::empty(),
            r.root_env() == Env::without_stdlib(),
            !r.root_env().provides_stdlib(),
    {
        Context::with_env(Arc::new(Env::default()))
    }

    /// Constructs a root context with no variables or functions and the given
    /// environment.
    pub fn with_env(env: Arc<Env>) -> (r: Self)
        ensures
            r.is_root(),
            r.scopes() == seq![empty_scope()],
            r.root_functions() == Map::<Seq<char>, Function>::empty(),
            r.root_env() == *env,
    {
        let variables = Table::new();
        proof {
            assert(variables_view(variables) =~= Map::empty());
        }
        let r = Context::Root { env, variables, functions: FunctionRegistry::default(), resolver: None };
        proof {
            assert(r.scopes() =~= seq![empty_scope()]);
        }
        r
    }
}

impl Default for Context<'_> {
    /// A root context with no variables or functions, whose environment has the
    /// standard library.
    fn default() -> (r: Self)
        ensures
            r.is_root(),
            r.scopes() == seq![empty_scope()],
            r.root_functions() == Map::<Seq<char>, Function>::empty(),
            r.root_env() == Env::with_stdlib(),
            r.root_env().provides_stdlib(),
    {
        Context::with_env(Arc::new(Env::stdlib()))
    }
}

} // verus!
