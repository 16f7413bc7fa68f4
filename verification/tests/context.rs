use std::sync::Arc;

use lib::{
    Context, Env, ExecutionError, Expression, Function, Handler, Key, PreparedValue, Program,
    Value, ValueMap, VariableResolver,
};

fn assert_send_sync<T: Send + Sync>() {}

fn text(s: &str) -> Arc<String> {
    Arc::new(s.to_string())
}

fn map_with_value(n: i64) -> Value {
    let mut m = ValueMap::new();
    m.insert(Key::String(text("value")), Value::Int(n));
    Value::from_map(m)
}

fn int_of(p: Option<PreparedValue>) -> Option<i64> {
    match p {
        Some(p) => match Value::resolve(&Expression::Ident(text("x")), &{
            let mut c = Context::empty();
            c.add_prepared_variable("x", p);
            c
        }) {
            Ok(Value::Int(i)) => Some(i),
            _ => None,
        },
        None => None,
    }
}

struct Fixed {
    name: &'static str,
    value: i64,
}

impl VariableResolver for Fixed {
    fn resolve(&self, variable: &str) -> Option<Value> {
        if variable == self.name {
            Some(Value::Int(self.value))
        } else {
            None
        }
    }
}

struct Constant(i64);

impl Handler for Constant {
    fn call(&self, _args: &[Value]) -> Result<Value, ExecutionError> {
        Ok(Value::Int(self.0))
    }
}

#[test]
fn context_and_prepared_value_are_send_and_sync() {
    assert_send_sync::<Context>();
    assert_send_sync::<PreparedValue>();
}

#[test]
fn prepared_variable_can_be_reused_and_replaced() {
    let first = PreparedValue::try_from_value(map_with_value(1)).unwrap();
    let second = PreparedValue::try_from_value(map_with_value(2)).unwrap();
    let program = Program::compile("data.value").unwrap();
    let mut context = Context::default();

    context.add_prepared_variable("data", first.clone());
    assert_eq!(program.execute(&context), Ok(Value::Int(1)));

    context.add_prepared_variable("data", second);
    assert_eq!(program.execute(&context), Ok(Value::Int(2)));

    context.add_prepared_variable("data", first);
    assert_eq!(program.execute(&context), Ok(Value::Int(1)));
}

#[test]
fn read_after_write_and_other_names() {
    let mut context = Context::empty();
    context.add_variable_from_value("a", Value::Int(1));
    context.add_variable_from_value("b", Value::Int(2));
    assert_eq!(int_of(context.get_variable("a")), Some(1));
    assert_eq!(int_of(context.get_variable("b")), Some(2));
    assert!(context.get_variable("c").is_none());
    context.add_variable_from_value("a", Value::Int(3));
    assert_eq!(int_of(context.get_variable("a")), Some(3));
    assert_eq!(int_of(context.get_variable("b")), Some(2));
}

#[test]
fn child_shadows_and_defers_to_parent() {
    let mut parent = Context::default();
    parent.add_variable_from_value("x", Value::Int(1));
    parent.add_variable_from_value("y", Value::Int(2));
    {
        let mut child = parent.new_inner_scope();
        assert_eq!(int_of(child.get_variable("x")), Some(1));
        child.add_variable_from_value("x", Value::Int(10));
        assert_eq!(int_of(child.get_variable("x")), Some(10));
        assert_eq!(int_of(child.get_variable("y")), Some(2));
        assert!(child.get_variable("z").is_none());
        let grandchild = child.new_inner_scope();
        assert_eq!(int_of(grandchild.get_variable("x")), Some(10));
        assert_eq!(int_of(grandchild.get_variable("y")), Some(2));
    }
    assert_eq!(int_of(parent.get_variable("x")), Some(1));
}

#[test]
fn resolver_is_consulted_first() {
    let resolver = Fixed { name: "x", value: 7 };
    let mut context = Context::empty();
    context.add_variable_from_value("x", Value::Int(1));
    context.add_variable_from_value("y", Value::Int(2));
    context.set_variable_resolver(&resolver);
    assert_eq!(int_of(context.get_variable("x")), Some(7));
    assert_eq!(int_of(context.get_variable("y")), Some(2));
    assert!(context.get_variable("z").is_none());
}

#[test]
fn child_resolver_and_parent_resolver() {
    let outer = Fixed { name: "p", value: 5 };
    let inner = Box::new(Fixed { name: "q", value: 6 });
    let mut parent = Context::empty();
    parent.set_variable_resolver(&outer);
    parent.add_variable_from_value("q", Value::Int(1));
    let mut child = parent.new_inner_scope();
    assert_eq!(int_of(child.get_variable("p")), Some(5));
    assert_eq!(int_of(child.get_variable("q")), Some(1));
    child.set_variable_resolver(&inner);
    assert_eq!(int_of(child.get_variable("q")), Some(6));
    assert_eq!(int_of(child.get_variable("p")), Some(5));
}

#[test]
fn forwarding_resolvers() {
    let fixed = Fixed { name: "v", value: 3 };
    let boxed: Box<Fixed> = Box::new(Fixed { name: "v", value: 4 });
    let shared: Arc<Fixed> = Arc::new(Fixed { name: "v", value: 5 });
    let by_ref: &Fixed = &fixed;
    assert_eq!(boxed.resolve("v"), Some(Value::Int(4)));
    assert_eq!(shared.resolve("v"), Some(Value::Int(5)));
    assert_eq!(VariableResolver::resolve(&by_ref, "v"), Some(Value::Int(3)));
    assert_eq!(VariableResolver::resolve(&by_ref, "w"), None);
}

#[test]
fn add_variable_converts_values() {
    let mut context = Context::empty();
    assert!(context.add_variable("i", 4i64).is_ok());
    assert!(context.add_variable("u", 5u64).is_ok());
    assert!(context.add_variable("b", true).is_ok());
    assert!(context.add_variable("s", "hi".to_string()).is_ok());
    assert!(context.add_variable("v", Value::Null).is_ok());
    assert_eq!(int_of(context.get_variable("i")), Some(4));
    assert_eq!(context.get_variable("u").unwrap().cel_type_name(), "uint");
    assert_eq!(context.get_variable("b").unwrap().cel_type_name(), "bool");
    assert_eq!(context.get_variable("s").unwrap().cel_type_name(), "string");
    assert_eq!(context.get_variable("v").unwrap().cel_type_name(), "null");
}

#[test]
fn functions_belong_to_the_root() {
    let mut root = Context::empty();
    assert!(root.get_function("one").is_none());
    root.add_function("one", Constant(1));
    let f = root.get_function("one").unwrap();
    assert_eq!(f.call(&[]), Ok(Value::Int(1)));
    {
        let mut child = root.new_inner_scope();
        child.add_function("two", Constant(2));
        assert!(child.get_function("two").is_none());
        assert!(child.get_function("one").is_some());
    }
    root.add_function("one", Constant(3));
    assert_eq!(root.get_function("one").unwrap().call(&[]), Ok(Value::Int(3)));
}

#[test]
fn function_wraps_handler() {
    let f = Function::new(Constant(9));
    assert_eq!(f.call(&[Value::Null]), Ok(Value::Int(9)));
}

#[test]
fn environments_of_roots_and_children() {
    let default = Context::default();
    assert!(default.env().has_stdlib());
    let empty = Context::empty();
    assert!(!empty.env().has_stdlib());
    let child = default.new_inner_scope();
    assert!(child.env().has_stdlib());
    let custom = Context::with_env(Arc::new(Env::stdlib()));
    assert!(custom.env().has_stdlib());
    assert!(!Env::default().has_stdlib());
}

#[test]
fn empty_context_has_nothing() {
    let context = Context::empty();
    assert!(context.get_variable("x").is_none());
    assert!(context.get_function("f").is_none());
    assert_eq!(
        context.resolve(&Expression::Ident(text("x"))),
        Err(ExecutionError::UndeclaredReference(text("x")))
    );
}

#[test]
fn child_variable_before_parent_resolver() {
    let resolver = Fixed { name: "y", value: 7 };
    let mut root = Context::empty();
    root.set_variable_resolver(&resolver);
    {
        let mut child = root.new_inner_scope();
        child.add_variable_from_value("y", Value::Int(8));
        assert_eq!(int_of(child.get_variable("y")), Some(8));
    }
    assert_eq!(int_of(root.get_variable("y")), Some(7));
}

#[test]
fn later_resolver_replaces_earlier() {
    let first = Fixed { name: "x", value: 1 };
    let second = Fixed { name: "z", value: 2 };
    let mut context = Context::empty();
    context.set_variable_resolver(&first);
    assert_eq!(int_of(context.get_variable("x")), Some(1));
    context.set_variable_resolver(&second);
    assert!(context.get_variable("x").is_none());
    assert_eq!(int_of(context.get_variable("z")), Some(2));
}

struct Fruit;

impl VariableResolver for Fruit {
    fn resolve(&self, variable: &str) -> Option<Value> {
        match variable {
            "fruit" | "carrot" | "orange" => Some(Value::Bool(true)),
            "banana" => Some(Value::Bool(false)),
            _ => None,
        }
    }
}

#[test]
fn resolver_beside_variables() {
    let mut context = Context::default();
    context.add_variable_from_value("foo", map_with_value(1));
    context.add_variable_from_value("apple", Value::Bool(true));
    context.add_variable_from_value("a", Value::Int(1));
    context.set_variable_resolver(&Fruit);
    let read = |n: &str| context.resolve(&Expression::Ident(text(n)));
    assert_eq!(read("banana"), Ok(Value::Bool(false)));
    assert_eq!(read("fruit"), Ok(Value::Bool(true)));
    assert_eq!(read("apple"), Ok(Value::Bool(true)));
    assert_eq!(read("a"), Ok(Value::Int(1)));
    assert!(context.get_variable("pear").is_none());
}

#[test]
fn add_function_takes_a_function_or_a_handler() {
    let mut root = Context::empty();
    root.add_function("f", Function::new(Constant(4)));
    assert_eq!(root.get_function("f").unwrap().call(&[]), Ok(Value::Int(4)));
    root.add_function("f", Constant(5));
    assert_eq!(root.get_function("f").unwrap().call(&[]), Ok(Value::Int(5)));
}

#[test]
fn resolve_all_with_resolver_in_order() {
    let resolver = Fixed { name: "a", value: 1 };
    let mut context = Context::empty();
    context.add_variable_from_value("c", Value::Int(3));
    context.set_variable_resolver(&resolver);
    let ident = |n: &str| Expression::Ident(text(n));
    assert_eq!(
        context.resolve_all(&[ident("a"), ident("c")]),
        Ok(Value::List(Arc::new(vec![Value::Int(1), Value::Int(3)])))
    );
    assert_eq!(
        context.resolve_all(&[ident("a"), ident("b"), ident("c")]),
        Err(ExecutionError::UndeclaredReference(text("b")))
    );
}
