//! Properties of contexts and programs that relate several operations.

use std::sync::Arc;
use vstd::prelude::*;

use crate::context::{
    empty_scope, may_answer_name, plain_lookup, possible_lookup, scope_may_answer, silent_on,
    with_resolver, with_variable, without_resolvers, Scope, VariableResolver,
};
use crate::error::{ExecutionError, ExecutionErrorView};
use crate::expr::{
    eval_from, evaluates_before, lookups_determined, plain_eval, possible_eval,
    resolve_all_outcome, root_name, select_field, Expression,
};
use crate::program::{
    bad_at, dotted, is_ident_continue, is_ident_start, is_identifier, is_path,
    names_are_identifiers,
};
use crate::value::{type_name_of, KeyView, Value, ValueMap};

verus! {

/// A variable read back from the scope it was written to gives the written
/// value, unless that scope's resolver can answer for it first.
pub proof fn law_read_after_write<'a>(
    scopes: Seq<Scope<'a>>,
    name: Seq<char>,
    value: Value,
    v: Option<Value>,
)
    requires
        scopes.len() > 0,
        silent_on(scopes[0], name),
    ensures
        possible_lookup(scopes.update(0, with_variable(scopes[0], name, value)), name, v) ==> v
            == Some(value),
        plain_lookup(scopes.update(0, with_variable(scopes[0], name, value)), name) == Some(value),
{
    let s = scopes.update(0, with_variable(scopes[0], name, value));
    assert(s[0].variables.contains_key(name));
    if possible_lookup(s, name, v) && v is Some {
        assert(scope_may_answer(s[0], name, v) ==> scope_may_answer(scopes[0], name, v));
    }
}

/// Writing a variable leaves what every other name can give unchanged.
pub proof fn law_write_keeps_other_names<'a>(
    scopes: Seq<Scope<'a>>,
    name: Seq<char>,
    value: Value,
    other: Seq<char>,
    v: Option<Value>,
)
    requires
        scopes.len() > 0,
        other != name,
    ensures
        possible_lookup(scopes.update(0, with_variable(scopes[0], name, value)), other, v)
            == possible_lookup(scopes, other, v),
        plain_lookup(scopes.update(0, with_variable(scopes[0], name, value)), other)
            == plain_lookup(scopes, other),
{
    let s = scopes.update(0, with_variable(scopes[0], name, value));
    assert(s.drop_first() =~= scopes.drop_first());
    assert(s[0].variables.contains_key(other) == scopes[0].variables.contains_key(other));
    assert(s[0].resolver == scopes[0].resolver);
}

/// Writing a name twice keeps only the second value: add replaces.
pub proof fn law_write_replaces(scope: Scope<'_>, name: Seq<char>, first: Value, second: Value)
    ensures
        with_variable(with_variable(scope, name, first), name, second) == with_variable(
            scope,
            name,
            second,
        ),
{
    assert(with_variable(with_variable(scope, name, first), name, second).variables
        =~= with_variable(scope, name, second).variables);
}

/// A variable of a child scope hides a variable of the same name in its
/// enclosing scopes, unless the child's resolver can answer for it first.
pub proof fn law_child_shadows_parent<'a>(
    child: Scope<'a>,
    parents: Seq<Scope<'a>>,
    name: Seq<char>,
    v: Option<Value>,
)
    requires
        child.variables.contains_key(name),
        silent_on(child, name),
    ensures
        possible_lookup(seq![child] + parents, name, v) ==> v == Some(child.variables[name]),
        plain_lookup(seq![child] + parents, name) == Some(child.variables[name]),
{
    let s = seq![child] + parents;
    assert(s[0] == child);
    if possible_lookup(s, name, v) && v is Some {
        assert(scope_may_answer(child, name, v) ==> v is None);
    }
}

/// A name that a child scope without a resolver does not define is looked up in
/// the enclosing scopes.
pub proof fn law_child_defers_to_parent<'a>(
    child: Scope<'a>,
    parents: Seq<Scope<'a>>,
    name: Seq<char>,
    v: Option<Value>,
)
    requires
        !child.variables.contains_key(name),
        child.resolver is None,
    ensures
        possible_lookup(seq![child] + parents, name, v) == possible_lookup(parents, name, v),
        plain_lookup(seq![child] + parents, name) == plain_lookup(parents, name),
{
    let s = seq![child] + parents;
    assert(s[0] == child);
    assert(s.drop_first() =~= parents);
}

/// A fresh inner scope sees exactly what its parent sees.
pub proof fn law_inner_scope_transparent<'a>(
    parents: Seq<Scope<'a>>,
    name: Seq<char>,
    v: Option<Value>,
)
    ensures
        possible_lookup(seq![empty_scope::<'a>()] + parents, name, v) == possible_lookup(
            parents,
            name,
            v,
        ),
        plain_lookup(seq![empty_scope::<'a>()] + parents, name) == plain_lookup(parents, name),
{
    let s = seq![empty_scope::<'a>()] + parents;
    assert(s.drop_first() =~= parents);
}

/// A resolver is consulted before the variables of its scope and of the
/// enclosing scopes: whatever it can answer is a possible value, and when all
/// it can answer is `Some(a)`, the value is `Some(a)`.
pub proof fn law_resolver_first<'a>(scopes: Seq<Scope<'a>>, name: Seq<char>, a: Value, v: Option<Value>)
    requires
        scopes.len() > 0,
    ensures
        scope_may_answer(scopes[0], name, Some(a)) ==> possible_lookup(scopes, name, Some(a)),
        (forall|b: Option<Value>| #[trigger] scope_may_answer(scopes[0], name, b) ==> b == Some(a))
            ==> (possible_lookup(scopes, name, v) ==> v == Some(a)),
{
}

/// A resolver that can answer nothing for a name, set on a scope without a
/// resolver, leaves what the name can give unchanged.
pub proof fn law_silent_resolver<'a>(
    scopes: Seq<Scope<'a>>,
    resolver: Option<&'a dyn VariableResolver>,
    name: Seq<char>,
    v: Option<Value>,
)
    requires
        scopes.len() > 0,
        scopes[0].resolver is None,
        silent_on(with_resolver(scopes[0], resolver), name),
        scope_may_answer(with_resolver(scopes[0], resolver), name, None),
    ensures
        possible_lookup(scopes.update(0, with_resolver(scopes[0], resolver)), name, v)
            == possible_lookup(scopes, name, v),
{
    let s = scopes.update(0, with_resolver(scopes[0], resolver));
    assert(s.drop_first() =~= scopes.drop_first());
    assert(s[0] == with_resolver(scopes[0], resolver));
    if v is Some {
        assert(scope_may_answer(s[0], name, v) ==> v is None);
    }
}

/// After a resolver is set on the innermost scope, as
/// `Context::set_variable_resolver` does, that resolver is asked first: what it
/// can answer for a name is a possible value; when all it can answer is
/// `Some(a)`, the value is `Some(a)`, whatever variables of that name the scopes
/// hold; when all it can answer is `None`, the scope's variables and the
/// enclosing scopes give the value, as if no resolver were set.
pub proof fn law_set_resolver_then_lookup<'a>(
    before: Seq<Scope<'a>>,
    after: Seq<Scope<'a>>,
    resolver: &'a dyn VariableResolver,
    name: Seq<char>,
    a: Value,
    v: Option<Value>,
)
    requires
        before.len() > 0,
        after.len() == before.len(),
        after[0].resolver == Some(resolver),
        after[0].variables == before[0].variables,
        after.drop_first() == before.drop_first(),
    ensures
        may_answer_name(resolver, name, Some(a)) ==> possible_lookup(after, name, Some(a)),
        (forall|b: Option<Value>| #[trigger] may_answer_name(resolver, name, b) ==> b == Some(a))
            ==> (possible_lookup(after, name, v) ==> v == Some(a)),
        (forall|b: Option<Value>| #[trigger] may_answer_name(resolver, name, b) ==> b is None)
            && may_answer_name(resolver, name, None) ==> (possible_lookup(after, name, v)
            == possible_lookup(before.update(0, with_resolver(before[0], None)), name, v)),
{
    let bare = before.update(0, with_resolver(before[0], None));
    assert(bare.drop_first() =~= before.drop_first());
    assert(scope_may_answer(after[0], name, v) == may_answer_name(resolver, name, v));
    assert(scope_may_answer(after[0], name, None) == may_answer_name(resolver, name, None));
    assert(scope_may_answer(bare[0], name, None));
}

/// With resolvers that always answer alike, evaluating expressions in order
/// gives, when every expression has a value, the list of their values in order,
/// and otherwise the error of the first expression that fails.
pub proof fn law_resolve_all_in_order(
    scopes: Seq<Scope<'_>>,
    es: Seq<Expression>,
    outs: Seq<Result<Value, ExecutionErrorView>>,
    r: Result<Value, ExecutionError>,
)
    requires
        lookups_determined(scopes),
        outs.len() == es.len(),
        forall|i: int| 0 <= i < es.len() ==> possible_eval(scopes, es[i], #[trigger] outs[i]),
        resolve_all_outcome(scopes, es, r),
    ensures
        (forall|i: int| 0 <= i < es.len() ==> (#[trigger] outs[i]) is Ok) ==> (r matches Ok(v) && v
            matches Value::List(l) && l@.len() == es.len() && forall|i: int|
            0 <= i < es.len() ==> outs[i] == Ok::<Value, ExecutionErrorView>(#[trigger] l@[i])),
        forall|k: int|
            0 <= k < es.len() && (#[trigger] outs[k]) is Err && (forall|j: int|
                0 <= j < k ==> (#[trigger] outs[j]) is Ok) ==> (r matches Err(e) && outs[k]
                == Err::<Value, ExecutionErrorView>(e@)),
{
    match r {
        Ok(v) => {
            let l = v->List_0;
            assert forall|i: int| 0 <= i < es.len() implies outs[i] == Ok::<Value, ExecutionErrorView>(
                #[trigger] l@[i],
            ) by {
                lemma_eval_determined(scopes, es[i], outs[i], Ok(l@[i]));
            }
            assert forall|k: int| 0 <= k < es.len() implies !((#[trigger] outs[k]) is Err) by {
                lemma_eval_determined(scopes, es[k], outs[k], Ok(l@[k]));
            }
        },
        Err(e) => {
            let vs = choose|vs: Seq<Value>|
                #[trigger] evaluates_before(scopes, es, vs) && vs.len() < es.len() && possible_eval(
                    scopes,
                    es[vs.len() as int],
                    Err(e@),
                );
            let m = vs.len() as int;
            assert forall|j: int| 0 <= j < m implies (#[trigger] outs[j]) == Ok::<
                Value,
                ExecutionErrorView,
            >(vs[j]) by {
                assert(possible_eval(scopes, es[j], Ok(vs[j])));
                lemma_eval_determined(scopes, es[j], outs[j], Ok(vs[j]));
            }
            lemma_eval_determined(scopes, es[m], outs[m], Err(e@));
            assert forall|k: int|
                0 <= k < es.len() && (#[trigger] outs[k]) is Err && (forall|j: int|
                    0 <= j < k ==> (#[trigger] outs[j]) is Ok) implies outs[k] == Err::<
                Value,
                ExecutionErrorView,
            >(e@) by {
                if k < m {
                    assert(outs[k] == Ok::<Value, ExecutionErrorView>(vs[k]));
                } else if k > m {
                    assert(outs[m] is Ok);
                }
            }
            assert(!(forall|i: int| 0 <= i < es.len() ==> (#[trigger] outs[i]) is Ok));
        },
    }
}

/// With resolvers that always answer alike, an expression has at most one
/// possible outcome.
proof fn lemma_eval_determined(
    scopes: Seq<Scope<'_>>,
    e: Expression,
    o1: Result<Value, ExecutionErrorView>,
    o2: Result<Value, ExecutionErrorView>,
)
    requires
        lookups_determined(scopes),
        possible_eval(scopes, e, o1),
        possible_eval(scopes, e, o2),
    ensures
        o1 == o2,
{
    let v1 = choose|v: Option<Value>| #[trigger] possible_lookup(scopes, root_name(e), v) && o1 == eval_from(e, v);
    let v2 = choose|v: Option<Value>| #[trigger] possible_lookup(scopes, root_name(e), v) && o2 == eval_from(e, v);
    assert(v1 == v2);
}

/// Setting a resolver replaces the one set before: only the last one is asked.
pub proof fn law_resolver_replaces<'a>(
    scope: Scope<'a>,
    first: Option<&'a dyn VariableResolver>,
    second: Option<&'a dyn VariableResolver>,
)
    ensures
        with_resolver(with_resolver(scope, first), second) == with_resolver(scope, second),
{
}

/// Without resolvers, a lookup has exactly one possible outcome: the one that
/// the variables give.
pub proof fn law_lookup_deterministic<'a>(scopes: Seq<Scope<'a>>, name: Seq<char>, v: Option<Value>)
    requires
        without_resolvers(scopes),
    ensures
        possible_lookup(scopes, name, v) <==> v == plain_lookup(scopes, name),
    decreases scopes.len(),
{
    if scopes.len() > 0 {
        assert(scopes[0].resolver is None);
        let rest = scopes.drop_first();
        assert forall|i: int| 0 <= i < rest.len() implies (#[trigger] rest[i]).resolver is None by {
            assert(rest[i] == scopes[i + 1]);
        }
        law_lookup_deterministic(rest, name, v);
    }
}

/// A dot never occurs in an identifier.
proof fn lemma_identifier_has_no_dot(t: Seq<char>, j: int)
    requires
        is_identifier(t),
        0 <= j < t.len(),
    ensures
        t[j] != '.',
{
    assert(is_ident_continue(t[j]));
}

/// The names of an expression, from its root identifier on.
pub open spec fn names_of(e: Expression) -> Seq<Seq<char>>
    decreases e,
{
    match e {
        Expression::Ident(n) => seq![n@],
        Expression::Member(inner, field) => names_of(*inner).push(field@),
    }
}

/// The text of an expression whose names are identifiers ends with its last
/// name, after the last dot.
proof fn lemma_split_last(a: Seq<char>, f: Seq<char>, b: Seq<char>, g: Seq<char>)
    requires
        is_identifier(f),
        is_identifier(g),
        a + seq!['.'] + f == b + seq!['.'] + g,
    ensures
        a == b,
        f == g,
{
    let x = a + seq!['.'] + f;
    let y = b + seq!['.'] + g;
    if f.len() < g.len() {
        let p = x.len() - f.len() - 1;
        assert(x[p] == '.');
        assert(y[p] == g[g.len() - f.len() - 1]);
        lemma_identifier_has_no_dot(g, g.len() - f.len() - 1);
    } else if g.len() < f.len() {
        let p = y.len() - g.len() - 1;
        assert(y[p] == '.');
        assert(x[p] == f[f.len() - g.len() - 1]);
        lemma_identifier_has_no_dot(f, f.len() - g.len() - 1);
    } else {
        assert(a =~= x.subrange(0, a.len() as int));
        assert(b =~= y.subrange(0, b.len() as int));
        assert(f =~= x.subrange(x.len() - f.len(), x.len() as int));
        assert(g =~= y.subrange(y.len() - g.len(), y.len() as int));
    }
}

/// A dotted path of identifiers is read in one way only: two expressions whose
/// names are identifiers and whose texts agree have the same names.
pub proof fn law_dotted_unambiguous(e1: Expression, e2: Expression)
    requires
        names_are_identifiers(e1),
        names_are_identifiers(e2),
        dotted(e1) == dotted(e2),
    ensures
        names_of(e1) == names_of(e2),
    decreases e1,
{
    match (e1, e2) {
        (Expression::Ident(n1), Expression::Ident(n2)) => {},
        (Expression::Member(i1, f1), Expression::Member(i2, f2)) => {
            lemma_split_last(dotted(*i1), f1@, dotted(*i2), f2@);
            law_dotted_unambiguous(*i1, *i2);
        },
        (Expression::Member(i1, f1), Expression::Ident(n2)) => {
            let x = dotted(e1);
            let p = dotted(*i1).len() as int;
            assert(x[p] == '.');
            lemma_identifier_has_no_dot(n2@, p);
        },
        (Expression::Ident(n1), Expression::Member(i2, f2)) => {
            let x = dotted(e2);
            let p = dotted(*i2).len() as int;
            assert(x[p] == '.');
            lemma_identifier_has_no_dot(n1@, p);
        },
    }
}

/// Every character of `dotted(e)` can stand where it stands, and the text is a
/// non-empty path that ends with an identifier character.
proof fn lemma_dotted_shape(e: Expression)
    requires
        names_are_identifiers(e),
    ensures
        dotted(e).len() > 0,
        forall|i: int| 0 <= i < dotted(e).len() ==> !bad_at(dotted(e), i),
        is_ident_continue(dotted(e).last()),
    decreases e,
{
    match e {
        Expression::Ident(n) => {
            let s = n@;
            assert forall|i: int| 0 <= i < s.len() implies !bad_at(s, i) by {
                assert(is_ident_continue(s[i]));
                if i > 0 {
                    lemma_identifier_has_no_dot(s, i - 1);
                }
            }
            assert(is_ident_continue(s[s.len() - 1]));
        },
        Expression::Member(inner, field) => {
            lemma_dotted_shape(*inner);
            let a = dotted(*inner);
            let f = field@;
            let s = a + seq!['.'] + f;
            assert forall|i: int| 0 <= i < s.len() implies !bad_at(s, i) by {
                if i < a.len() {
                    assert(s[i] == a[i]);
                    assert(!bad_at(a, i));
                    if i > 0 {
                        assert(s[i - 1] == a[i - 1]);
                    }
                } else if i == a.len() {
                    assert(s[i] == '.');
                    assert(s[i - 1] == a.last());
                    assert(is_ident_continue(a.last()));
                } else {
                    let j = i - a.len() - 1;
                    assert(s[i] == f[j]);
                    assert(is_ident_continue(f[j]));
                    if j == 0 {
                        assert(s[i - 1] == '.');
                    } else {
                        assert(s[i - 1] == f[j - 1]);
                        lemma_identifier_has_no_dot(f, j - 1);
                    }
                }
            }
            assert(s.last() == f.last());
            assert(is_ident_continue(f[f.len() - 1]));
        },
    }
}

/// The text of an expression whose names are identifiers is a dotted path, so
/// compiling it succeeds (and, by `law_dotted_unambiguous`, gives back its names).
pub proof fn law_dotted_is_path(e: Expression)
    requires
        names_are_identifiers(e),
    ensures
        is_path(dotted(e)),
{
    lemma_dotted_shape(e);
    let s = dotted(e);
    assert(s.last() != '.');
}

/// An identifier evaluates to the value of its variable, whatever that value is
/// (null included), and fails with `UndeclaredReference` of its own name only
/// when it has no value.
pub proof fn law_identifier_gives_its_value(n: Arc<String>, v: Value)
    ensures
        eval_from(Expression::Ident(n), Some(v)) == Ok::<Value, ExecutionErrorView>(v),
        eval_from(Expression::Ident(n), None) == Err::<Value, ExecutionErrorView>(
            ExecutionErrorView::UndeclaredReference(n@),
        ),
{
}

/// In scopes without resolvers, a name has no value exactly when no scope binds
/// it.
proof fn lemma_plain_lookup_none<'a>(scopes: Seq<Scope<'a>>, name: Seq<char>)
    ensures
        plain_lookup(scopes, name) is None <==> forall|i: int|
            0 <= i < scopes.len() ==> !(#[trigger] scopes[i]).variables.contains_key(name),
    decreases scopes.len(),
{
    if scopes.len() > 0 {
        let rest = scopes.drop_first();
        lemma_plain_lookup_none(rest, name);
        if plain_lookup(scopes, name) is None {
            assert forall|i: int| 0 <= i < scopes.len() implies !(
            #[trigger] scopes[i]).variables.contains_key(name) by {
                if i > 0 {
                    assert(scopes[i] == rest[i - 1]);
                }
            }
        } else {
            if !scopes[0].variables.contains_key(name) {
                let i = choose|i: int|
                    0 <= i < rest.len() && (#[trigger] rest[i]).variables.contains_key(name);
                assert(scopes[i + 1] == rest[i]);
            }
        }
    }
}

/// Reading a variable in a context without resolvers: when the innermost scope
/// binds the name to `v`, the identifier evaluates to `v` (null included), and
/// the evaluation fails with `UndeclaredReference` exactly when no scope binds
/// the name.
pub proof fn law_read_variable<'a>(scopes: Seq<Scope<'a>>, n: Arc<String>)
    requires
        without_resolvers(scopes),
    ensures
        scopes.len() > 0 && scopes[0].variables.contains_key(n@) ==> plain_eval(
            scopes,
            Expression::Ident(n),
        ) == Ok::<Value, ExecutionErrorView>(scopes[0].variables[n@]),
        (plain_eval(scopes, Expression::Ident(n)) == Err::<Value, ExecutionErrorView>(
            ExecutionErrorView::UndeclaredReference(n@),
        )) <==> forall|i: int|
            0 <= i < scopes.len() ==> !(#[trigger] scopes[i]).variables.contains_key(n@),
        forall|out: Result<Value, ExecutionErrorView>|
            possible_eval(scopes, Expression::Ident(n), out) ==> out == plain_eval(
                scopes,
                Expression::Ident(n),
            ),
{
    lemma_plain_lookup_none(scopes, n@);
    assert forall|out: Result<Value, ExecutionErrorView>|
        possible_eval(scopes, Expression::Ident(n), out) implies out == plain_eval(
        scopes,
        Expression::Ident(n),
    ) by {
        let v = choose|v: Option<Value>|
            #[trigger] possible_lookup(scopes, root_name(Expression::Ident(n)), v) && out
                == eval_from(Expression::Ident(n), v);
        law_lookup_deterministic(scopes, n@, v);
    }
}

/// Selecting a field of a map gives the entry under that string key, whatever
/// the entry holds (0 included), and fails with `NoSuchKey` of the field only
/// when the map has no such key.
pub proof fn law_select_present_field(m: Arc<ValueMap>, f: Seq<char>)
    ensures
        m@.contains_key(KeyView::String(f)) ==> select_field(Value::Dict(m), f) == Ok::<
            Value,
            ExecutionErrorView,
        >(m@[KeyView::String(f)]),
        !m@.contains_key(KeyView::String(f)) ==> select_field(Value::Dict(m), f) == Err::<
            Value,
            ExecutionErrorView,
        >(ExecutionErrorView::NoSuchKey(f)),
{
}

/// A dotted path `n.f` whose root is a map holding the key `f` evaluates to the
/// entry under that key; in a context without resolvers whose innermost scope
/// binds `n` to that map, so does the program.
pub proof fn law_member_of_variable<'a>(
    scopes: Seq<Scope<'a>>,
    n: Arc<String>,
    f: Arc<String>,
    m: Arc<ValueMap>,
)
    requires
        m@.contains_key(KeyView::String(f@)),
    ensures
        eval_from(Expression::Member(Box::new(Expression::Ident(n)), f), Some(Value::Dict(m)))
            == Ok::<Value, ExecutionErrorView>(m@[KeyView::String(f@)]),
        without_resolvers(scopes) && scopes.len() > 0 && scopes[0].variables.contains_key(n@)
            && scopes[0].variables[n@] == Value::Dict(m) ==> plain_eval(
            scopes,
            Expression::Member(Box::new(Expression::Ident(n)), f),
        ) == Ok::<Value, ExecutionErrorView>(m@[KeyView::String(f@)]),
{
    let e = Expression::Member(Box::new(Expression::Ident(n)), f);
    assert(eval_from(Expression::Ident(n), Some(Value::Dict(m))) == Ok::<Value, ExecutionErrorView>(
        Value::Dict(m),
    ));
    assert(root_name(e) == n@) by {
        assert(root_name(Expression::Ident(n)) == n@);
    }
    if without_resolvers(scopes) && scopes.len() > 0 && scopes[0].variables.contains_key(n@)
        && scopes[0].variables[n@] == Value::Dict(m) {
        assert(plain_lookup(scopes, n@) == Some(Value::Dict(m)));
    }
}

/// The CEL type name of a value depends on its kind alone: every integer is an
/// `int`, every unsigned integer a `uint`, and so on.
pub proof fn law_type_names(
    l: Arc<Vec<Value>>,
    m: Arc<ValueMap>,
    i: i64,
    u: u64,
    s: Arc<String>,
    b: Arc<Vec<u8>>,
    x: bool,
)
    ensures
        type_name_of(Value::List(l)) == "list"@,
        type_name_of(Value::Dict(m)) == "map"@,
        type_name_of(Value::Int(i)) == "int"@,
        type_name_of(Value::UInt(u)) == "uint"@,
        type_name_of(Value::String(s)) == "string"@,
        type_name_of(Value::Bytes(b)) == "bytes"@,
        type_name_of(Value::Bool(x)) == "bool"@,
        type_name_of(Value::Null) == "null"@,
{
}

/// Which characters identifiers are made of: an ASCII letter (either case) or
/// `_` may begin one; those and the ASCII digits may follow.
pub proof fn law_identifier_characters(c: char)
    ensures
        is_ident_start(c) <==> ('a' <= c <= 'z' || 'A' <= c <= 'Z' || c == '_'),
        is_ident_continue(c) <==> ('a' <= c <= 'z' || 'A' <= c <= 'Z' || c == '_' || '0' <= c
            <= '9'),
{
}

/// A name in the shape `[A-Za-z_][A-Za-z0-9_]*`.
pub open spec fn ascii_name(t: Seq<char>) -> bool {
    &&& t.len() > 0
    &&& ('a' <= t[0] <= 'z' || 'A' <= t[0] <= 'Z' || t[0] == '_')
    &&& forall|j: int|
        0 <= j < t.len() ==> ('a' <= #[trigger] t[j] <= 'z' || 'A' <= t[j] <= 'Z' || t[j] == '_'
            || '0' <= t[j] <= '9')
}

/// Whether every name of `e` is in the shape `[A-Za-z_][A-Za-z0-9_]*`.
pub open spec fn ascii_names(e: Expression) -> bool
    decreases e,
{
    match e {
        Expression::Ident(n) => ascii_name(n@),
        Expression::Member(inner, field) => ascii_names(*inner) && ascii_name(field@),
    }
}

proof fn lemma_ascii_names_are_identifiers(e: Expression)
    requires
        ascii_names(e),
    ensures
        names_are_identifiers(e),
    decreases e,
{
    match e {
        Expression::Ident(n) => {
            assert forall|j: int| 0 <= j < n@.len() implies is_ident_continue(#[trigger] n@[j]) by {
                assert('a' <= n@[j] <= 'z' || 'A' <= n@[j] <= 'Z' || n@[j] == '_' || '0' <= n@[j]
                    <= '9');
            }
        },
        Expression::Member(inner, field) => {
            lemma_ascii_names_are_identifiers(*inner);
            assert forall|j: int| 0 <= j < field@.len() implies is_ident_continue(
                #[trigger] field@[j],
            ) by {
                assert('a' <= field@[j] <= 'z' || 'A' <= field@[j] <= 'Z' || field@[j] == '_'
                    || '0' <= field@[j] <= '9');
            }
        },
    }
}

/// Every dotted path whose segments are in the shape `[A-Za-z_][A-Za-z0-9_]*`
/// (such as `userId`, `item0` or `Data.value`) is accepted by the compiler,
/// which then gives back exactly those segments.
pub proof fn law_ascii_paths_compile(e: Expression)
    requires
        ascii_names(e),
    ensures
        is_path(dotted(e)),
        names_are_identifiers(e),
{
    lemma_ascii_names_are_identifiers(e);
    law_dotted_is_path(e);
}

} // verus!
