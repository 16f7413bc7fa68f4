use std::sync::Arc;

use lib::{Context, ExecutionError, Expression, Key, ParseError, PreparedValue, Program, Value, ValueMap};

fn text(s: &str) -> Arc<String> {
    Arc::new(s.to_string())
}

fn nested() -> Value {
    let mut inner = ValueMap::new();
    inner.insert(Key::String(text("c")), Value::Int(3));
    let mut outer = ValueMap::new();
    outer.insert(Key::String(text("b")), Value::from_map(inner));
    outer.insert(Key::String(text("n")), Value::Int(4));
    outer.insert(Key::Int(1), Value::Bool(true));
    Value::from_map(outer)
}

#[test]
fn compile_builds_member_chain() {
    let program = Program::compile("a.b.c").unwrap();
    assert_eq!(
        program.expression(),
        &Expression::Member(
            Box::new(Expression::Member(Box::new(Expression::Ident(text("a"))), text("b"))),
            text("c")
        )
    );
    let single = Program::compile("_x9").unwrap();
    assert_eq!(single.expression, Expression::Ident(text("_x9")));
}

#[test]
fn compile_reports_first_bad_position() {
    assert_eq!(Program::compile("").err(), Some(ParseError { position: 0 }));
    assert_eq!(Program::compile("1abc").err(), Some(ParseError { position: 0 }));
    assert_eq!(Program::compile("a..b").err(), Some(ParseError { position: 2 }));
    assert_eq!(Program::compile("ab.").err(), Some(ParseError { position: 3 }));
    assert_eq!(Program::compile("a b").err(), Some(ParseError { position: 1 }));
    assert_eq!(Program::compile(".a").err(), Some(ParseError { position: 0 }));
    assert_eq!(Program::compile("a.9").err(), Some(ParseError { position: 2 }));
}

#[test]
fn execute_selects_nested_fields() {
    let mut context = Context::empty();
    context.add_variable_from_value("a", nested());
    assert_eq!(Program::compile("a.b.c").unwrap().execute(&context), Ok(Value::Int(3)));
    assert_eq!(Program::compile("a.n").unwrap().execute(&context), Ok(Value::Int(4)));
}

#[test]
fn execute_errors() {
    let mut context = Context::empty();
    context.add_variable_from_value("a", nested());
    assert_eq!(
        Program::compile("missing.x").unwrap().execute(&context),
        Err(ExecutionError::UndeclaredReference(text("missing")))
    );
    assert_eq!(
        Program::compile("a.zz").unwrap().execute(&context),
        Err(ExecutionError::NoSuchKey(text("zz")))
    );
    assert_eq!(
        Program::compile("a.n.m").unwrap().execute(&context),
        Err(ExecutionError::UnexpectedType { got: "int".to_string(), want: "map".to_string() })
    );
}

#[test]
fn resolve_all_lists_values_or_first_error() {
    let mut context = Context::empty();
    context.add_variable_from_value("a", nested());
    context.add_variable_from_value("k", Value::UInt(8));
    let exprs = vec![
        Program::compile("k").unwrap().expression,
        Program::compile("a.n").unwrap().expression,
    ];
    assert_eq!(
        context.resolve_all(&exprs),
        Ok(Value::List(Arc::new(vec![Value::UInt(8), Value::Int(4)])))
    );
    let failing = vec![
        Program::compile("k").unwrap().expression,
        Program::compile("a.x").unwrap().expression,
        Program::compile("nope").unwrap().expression,
    ];
    assert_eq!(context.resolve_all(&failing), Err(ExecutionError::NoSuchKey(text("x"))));
    assert_eq!(context.resolve_all(&[]), Ok(Value::List(Arc::new(vec![]))));
}

#[test]
fn evaluate_from_given_root() {
    let e = Expression::Member(Box::new(Expression::Ident(text("r"))), text("n"));
    assert_eq!(e.evaluate_from(Some(nested())), Ok(Value::Int(4)));
    assert_eq!(e.evaluate_from(None), Err(ExecutionError::UndeclaredReference(text("r"))));
    assert_eq!(e.root_ident().as_str(), "r");
}

#[test]
fn type_names() {
    assert_eq!(Value::Int(1).cel_type_name(), "int");
    assert_eq!(Value::UInt(1).cel_type_name(), "uint");
    assert_eq!(Value::Bool(true).cel_type_name(), "bool");
    assert_eq!(Value::Null.cel_type_name(), "null");
    assert_eq!(Value::String(text("s")).cel_type_name(), "string");
    assert_eq!(Value::Bytes(Arc::new(vec![1u8])).cel_type_name(), "bytes");
    assert_eq!(Value::List(Arc::new(vec![])).cel_type_name(), "list");
    assert_eq!(nested().cel_type_name(), "map");
    let p = PreparedValue::try_from_value(nested()).unwrap();
    assert_eq!(p.cel_type_name(), "map");
    assert_eq!(p.debug_string(), "PreparedValue { type: \"map\", .. }");
}

#[test]
fn prepared_value_try_from_and_clone() {
    let p: PreparedValue = PreparedValue::try_from(Value::Int(5)).unwrap();
    let q = p.clone();
    let mut context = Context::empty();
    context.add_prepared_variable("p", p);
    context.add_prepared_variable("q", q);
    assert_eq!(context.resolve(&Expression::Ident(text("p"))), Ok(Value::Int(5)));
    assert_eq!(context.resolve(&Expression::Ident(text("q"))), Ok(Value::Int(5)));
}

#[test]
fn value_clone_shares_contents() {
    let v = nested();
    let w = v.clone();
    assert_eq!(v, w);
    if let (Value::Dict(a), Value::Dict(b)) = (&v, &w) {
        assert!(Arc::ptr_eq(a, b));
    } else {
        panic!("not a map");
    }
}

#[test]
fn value_map_insert_replaces_and_get() {
    let mut m = ValueMap::new();
    m.insert(Key::String(text("k")), Value::Int(1));
    m.insert(Key::Uint(2), Value::Int(2));
    m.insert(Key::String(text("k")), Value::Int(3));
    assert_eq!(m.get(&Key::String(text("k"))), Some(&Value::Int(3)));
    assert_eq!(m.get(&Key::Uint(2)), Some(&Value::Int(2)));
    assert_eq!(m.get(&Key::Int(2)), None);
    assert_eq!(m.get(&Key::Bool(false)), None);
}
