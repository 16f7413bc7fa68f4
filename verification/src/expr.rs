//! Expressions and their evaluation against a context.

use std::sync::Arc;
use vstd::prelude::*;

use crate::context::{
    possible_lookup, plain_lookup, prepared_view, without_resolvers, Context, Scope,
};
use crate::error::{ExecutionError, ExecutionErrorView};
use crate::value::{share, type_name_of, Key, KeyView, Value};

verus! {

/// A CEL expression: an identifier, or the selection of a field of the value of
/// an expression.
#[derive(Debug, PartialEq)]
pub enum Expression {
    Ident(Arc<String>),
    Member(Box<Expression>, Arc<String>),
}

/// The identifier that an expression starts from.
pub open spec fn root_name(e: Expression) -> Seq<char>
    decreases e,
{
    match e {
        Expression::Ident(n) => n@,
        Expression::Member(inner, _) => root_name(*inner),
    }
}

/// Selecting `field` of `v`: the entry of a map under that string key.
pub open spec fn select_field(v: Value, field: Seq<char>) -> Result<Value, ExecutionErrorView> {
    match v {
        Value::Dict(m) => if m@.contains_key(KeyView::String(field)) {
            Ok(m@[KeyView::String(field)])
        } else {
            Err(ExecutionErrorView::NoSuchKey(field))
        },
        _ => Err(ExecutionErrorView::UnexpectedType { got: type_name_of(v), want: "map"@ }),
    }
}

/// The outcome of evaluating `e` when its root identifier has the value `root`
/// (`None`: it is not defined).
pub open spec fn eval_from(e: Expression, root: Option<Value>) -> Result<Value, ExecutionErrorView>
    decreases e,
{
    match e {
        Expression::Ident(n) => match root {
            Some(v) => Ok(v),
            None => Err(ExecutionErrorView::UndeclaredReference(n@)),
        },
        Expression::Member(inner, field) => match eval_from(*inner, root) {
            Ok(v) => select_field(v, field@),
            Err(err) => Err(err),
        },
    }
}

/// An evaluation result, with the error taken by its view.
pub open spec fn result_view(r: Result<Value, ExecutionError>) -> Result<Value, ExecutionErrorView> {
    match r {
        Ok(v) => Ok(v),
        Err(e) => Err(e@),
    }
}

/// The outcome of evaluating `e` in `scopes` when no resolver answers.
pub open spec fn plain_eval(scopes: Seq<Scope<'_>>, e: Expression) -> Result<Value, ExecutionErrorView> {
    eval_from(e, plain_lookup(scopes, root_name(e)))
}

/// Whether `out` is a possible outcome of evaluating `e` in `scopes`.
pub open spec fn possible_eval(
    scopes: Seq<Scope<'_>>,
    e: Expression,
    out: Result<Value, ExecutionErrorView>,
) -> bool {
    exists|v: Option<Value>|
        #[trigger] possible_lookup(scopes, root_name(e), v) && out == eval_from(e, v)
}

/// Whether the first expressions of `es` can evaluate to the values `vs`, in order.
pub open spec fn evaluates_before(scopes: Seq<Scope<'_>>, es: Seq<Expression>, vs: Seq<Value>) -> bool {
    &&& vs.len() <= es.len()
    &&& forall|j: int| 0 <= j < vs.len() ==> possible_eval(scopes, #[trigger] es[j], Ok(vs[j]))
}

/// Whether `r` is a possible outcome of evaluating `es` in order in `scopes`:
/// the list of a possible value of each expression, or a possible error of one
/// expression after possible values of all that come before it.
pub open spec fn resolve_all_outcome(
    scopes: Seq<Scope<'_>>,
    es: Seq<Expression>,
    r: Result<Value, ExecutionError>,
) -> bool {
    match r {
        Ok(v) => v matches Value::List(l) && l@.len() == es.len() && forall|i: int|
            0 <= i < es.len() ==> possible_eval(scopes, #[trigger] es[i], Ok(l@[i])),
        Err(e) => exists|vs: Seq<Value>|
            #[trigger] evaluates_before(scopes, es, vs) && vs.len() < es.len() && possible_eval(
                scopes,
                es[vs.len() as int],
                Err(e@),
            ),
    }
}

/// Whether every name has at most one possible value in `scopes`: resolvers,
/// if any, always answer alike.
pub open spec fn lookups_determined(scopes: Seq<Scope<'_>>) -> bool {
    forall|name: Seq<char>, v1: Option<Value>, v2: Option<Value>|
        #[trigger] possible_lookup(scopes, name, v1) && #[trigger] possible_lookup(scopes, name, v2)
            ==> v1 == v2
}

/// The outcome of evaluating `es` in order when no resolver answers: all the
/// values, or the first error.
pub open spec fn plain_eval_all(scopes: Seq<Scope<'_>>, es: Seq<Expression>) -> Result<
    Seq<Value>,
    ExecutionErrorView,
>
    decreases es.len(),
{
    if es.len() == 0 {
        Ok(Seq::empty())
    } else {
        match plain_eval_all(scopes, es.drop_last()) {
            Err(e) => Err(e),
            Ok(vs) => match plain_eval(scopes, es.last()) {
                Ok(v) => Ok(vs.push(v)),
                Err(e) => Err(e),
            },
        }
    }
}

/// An error among the first `i` expressions is the error of all of them.
proof fn lemma_plain_eval_all_error(scopes: Seq<Scope<'_>>, es: Seq<Expression>, i: int)
    requires
        0 <= i <= es.len(),
        plain_eval_all(scopes, es.take(i)) is Err,
    ensures
        plain_eval_all(scopes, es) == plain_eval_all(scopes, es.take(i)),
    decreases es.len() - i,
{
    if i < es.len() {
        assert(es.take(i + 1).drop_last() =~= es.take(i));
        lemma_plain_eval_all_error(scopes, es, i + 1);
    } else {
        assert(es.take(i) =~= es);
    }
}

impl Expression {
    /// The identifier that this expression starts from.
    pub fn root_ident(&self) -> (r: &Arc<String>)
        ensures
            r@ == root_name(*self),
        decreases self,
    {
        match self {
            Expression::Ident(n) => n,
            Expression::Member(inner, _) => inner.root_ident(),
        }
    }

    /// Evaluates this expression given the value `root` of its root identifier.
    pub fn evaluate_from(&self, root: Option<Value>) -> (r: Result<Value, ExecutionError>)
        ensures
            result_view(r) == eval_from(*self, root),
        decreases self,
    {
        match self {
            Expression::Ident(n) => match root {
                Some(v) => Ok(v),
                None => Err(ExecutionError::UndeclaredReference(share(n))),
            },
            Expression::Member(inner, field) => match inner.evaluate_from(root) {
                Ok(v) => v.member(field),
                Err(err) => Err(err),
            },
        }
    }
}

impl Value {
    /// The value of field `field` of this value, which must be a map.
    pub fn member(&self, field: &Arc<String>) -> (r: Result<Value, ExecutionError>)
        ensures
            result_view(r) == select_field(*self, field@),
    {
        match self {
            Value::Dict(m) => {
                let map = &**m;
                let key = Key::String(share(field));
                match map.get(&key) {
                    Some(v) => Ok(v.clone()),
                    None => Err(ExecutionError::NoSuchKey(share(field))),
                }
            },
            _ => Err(
                ExecutionError::UnexpectedType {
                    got: self.cel_type_name().to_owned(),
                    want: "map".to_owned(),
                },
            ),
        }
    }

    /// Evaluates `expr` against `ctx`.
    pub fn resolve(expr: &Expression, ctx: &Context) -> (r: Result<Value, ExecutionError>)
        ensures
            possible_eval(ctx.scopes(), *expr, result_view(r)),
            without_resolvers(ctx.scopes()) ==> result_view(r) == plain_eval(ctx.scopes(), *expr),
    {
        let name = expr.root_ident();
        let root = match ctx.get_variable(name.as_str()) {
            Some(p) => Some(p.into_value()),
            None => None,
        };
        let r = expr.evaluate_from(root);
        proof {
            assert(possible_lookup(ctx.scopes(), root_name(*expr), root));
        }
        r
    }

    /// Evaluates each of `exprs` against `ctx`, in order, and gives the list of
    /// their values, or the first error.
    pub fn resolve_all(exprs: &[Expression], ctx: &Context) -> (r: Result<Value, ExecutionError>)
        ensures
            resolve_all_outcome(ctx.scopes(), exprs@, r),
            without_resolvers(ctx.scopes()) ==> match plain_eval_all(ctx.scopes(), exprs@) {
                Ok(vs) => r matches Ok(v) && v matches Value::List(l) && l@ == vs,
                Err(e) => r matches Err(err) && err@ == e,
            },
    {
        let n = exprs.len();
        let mut values: Vec<Value> = Vec::new();
        let mut i: usize = 0;
        while i < n
            invariant
                n == exprs@.len(),
                i <= n,
                values@.len() == i,
                forall|j: int|
                    0 <= j < i ==> possible_eval(ctx.scopes(), #[trigger] exprs@[j], Ok(values@[j])),
                without_resolvers(ctx.scopes()) ==> plain_eval_all(
                    ctx.scopes(),
                    exprs@.take(i as int),
                ) == Ok::<Seq<Value>, ExecutionErrorView>(values@),
            decreases n - i,
        {
            let r = Value::resolve(&exprs[i], ctx);
            proof {
                assert(exprs@.take(i + 1).drop_last() =~= exprs@.take(i as int));
                assert(exprs@.take(i + 1).last() == exprs@[i as int]);
            }
            match r {
                Ok(v) => {
                    values.push(v);
                },
                Err(e) => {
                    proof {
                        assert(evaluates_before(ctx.scopes(), exprs@, values@));
                        assert(possible_eval(ctx.scopes(), exprs@[values@.len() as int], Err(e@)));
                        if without_resolvers(ctx.scopes()) {
                            lemma_plain_eval_all_error(ctx.scopes(), exprs@, i + 1);
                        }
                    }
                    return Err(e);
                },
            }
            i = i + 1;
        }
        proof {
            assert(exprs@.take(n as int) =~= exprs@);
        }
        Ok(Value::List(Arc::new(values)))
    }
}

} // verus!
