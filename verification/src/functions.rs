//! User functions and the environment that a root context carries.

use vstd::prelude::*;

use crate::error::ExecutionError;
use crate::table::Table;
use crate::value::Value;

verus! {

/// A function that CEL programs can call, implemented by the library's users.
pub trait Handler: Send + Sync {
    fn call(&self, args: &[Value]) -> Result<Value, ExecutionError>;
}

/// Whether `r` is a result that `handler` can give when called on `args`.
pub open spec fn may_return<H: Handler + ?Sized>(
    handler: &H,
    args: &[Value],
    r: Result<Value, ExecutionError>,
) -> bool {
    call_ensures(H::call, (handler, args), r)
}

/// A registered function.
pub struct Function {
    handler: Box<dyn Handler>,
}

impl Function {
    /// Whether `r` is a result that the handler of this function can give when
    /// called on `args`.
    pub closed spec fn may_give(&self, args: &[Value], r: Result<Value, ExecutionError>) -> bool {
        may_return(&*self.handler, args, r)
    }

    /// Wraps a handler as a function.
    pub fn new<H: Handler + 'static>(handler: H) -> Self {
        Function { handler: Box::new(handler) }
    }

    /// Calls the function on `args`: its handler answers.
    pub fn call(&self, args: &[Value]) -> (r: Result<Value, ExecutionError>)
        ensures
            self.may_give(args, r),
    {
        self.handler.call(args)
    }
}

/// Things that can be registered as a function of a context.
pub trait IntoFunction {
    fn into_function(self) -> Function;
}

/// Whether `f` is a function that converting `value` can give.
pub open spec fn may_become<F: IntoFunction>(value: F, f: Function) -> bool {
    call_ensures(F::into_function, (value,), f)
}

impl IntoFunction for Function {
    fn into_function(self) -> (r: Function)
        ensures
            r == self,
    {
        self
    }
}

impl<H: Handler + 'static> IntoFunction for H {
    fn into_function(self) -> Function {
        Function::new(self)
    }
}

/// The functions of a root context, by name.
pub struct FunctionRegistry {
    functions: Table<String, Function>,
}

impl View for FunctionRegistry {
    type V = Map<Seq<char>, Function>;

    closed spec fn view(&self) -> Map<Seq<char>, Function> {
        self.functions@
    }
}

impl FunctionRegistry {
    /// A registry with no functions.
    pub fn new() -> (r: Self)
        ensures
            r@ == Map::<Seq<char>, Function>::empty(),
    {
        FunctionRegistry { functions: Table::new() }
    }

    /// Registers `function` under `name`, replacing what `name` held before.
    pub fn add(&mut self, name: &str, function: Function)
        ensures
            final(self)@ == old(self)@.insert(name@, function),
    {
        self.functions.insert(name.to_owned(), function);
    }

    /// The function registered under `name`, if any.
    pub fn get(&self, name: &str) -> (r: Option<&Function>)
        ensures
            match r {
                Some(f) => self@.contains_key(name@) && *f == self@[name@],
                None => !self@.contains_key(name@),
            },
    {
        let key = name.to_owned();
        self.functions.get(&key)
    }
}

impl Default for FunctionRegistry {
    fn default() -> (r: Self)
        ensures
            r@ == Map::<Seq<char>, Function>::empty(),
    {
        FunctionRegistry::new()
    }
}

/// The evaluation environment of a root context. It is a flag: whether
/// programs evaluated in it may use CEL's standard library. The standard
/// library's functions themselves belong to the interpreter, which this crate
/// does not hold; an environment only records the choice.
pub struct Env {
    stdlib: bool,
}

impl Env {
    /// Whether this environment's flag enables the standard library.
    pub closed spec fn provides_stdlib(&self) -> bool {
        self.stdlib
    }

    /// The environment whose flag enables the standard library.
    pub closed spec fn with_stdlib() -> Env {
        Env { stdlib: true }
    }

    /// The environment whose flag leaves the standard library out.
    pub closed spec fn without_stdlib() -> Env {
        Env { stdlib: false }
    }

    /// An environment whose flag enables the standard library.
    pub fn stdlib() -> (r: Env)
        ensures
            r == Env::with_stdlib(),
            r.provides_stdlib(),
    {
        Env { stdlib: true }
    }

    /// Whether this environment's flag enables the standard library.
    pub fn has_stdlib(&self) -> (r: bool)
        ensures
            r == self.provides_stdlib(),
    {
        self.stdlib
    }
}

impl Default for Env {
    /// An environment whose flag leaves the standard library out.
    fn default() -> (r: Env)
        ensures
            r == Env::without_stdlib(),
            !r.provides_stdlib(),
    {
        Env { stdlib: false }
    }
}

} // verus!
