//! CEL values: scalars, strings, bytes, lists and maps.
//!
//! Compound values and strings sit behind `Arc`, so that copying a value is
//! cheap and leaves both copies equal.

use std::sync::Arc;
use vstd::prelude::*;

use crate::table::{Table, TableKey};

verus! {

/// A new handle to the value that `a` points to.
///
/// Calls `Arc::clone` from std, which the contract takes to give a handle to the
/// same allocation, hence the same value.
#[verifier::external_body]
pub(crate) fn share<T>(a: &Arc<T>) -> (r: Arc<T>)
    ensures
        r == *a,
{
    Arc::clone(a)
}

/// A key of a CEL map.
#[derive(Debug, PartialEq, Eq)]
pub enum Key {
    Int(i64),
    Uint(u64),
    Bool(bool),
    String(Arc<String>),
}

/// What a key stands for: strings are taken by their characters.
pub enum KeyView {
    Int(i64),
    Uint(u64),
    Bool(bool),
    String(Seq<char>),
}

impl View for Key {
    type V = KeyView;

    open spec fn view(&self) -> KeyView {
        match self {
            Key::Int(i) => KeyView::Int(*i),
            Key::Uint(u) => KeyView::Uint(*u),
            Key::Bool(b) => KeyView::Bool(*b),
            Key::String(s) => KeyView::String(s@),
        }
    }
}

impl TableKey for Key {
    fn same_key(&self, other: &Self) -> (r: bool) {
        match (self, other) {
            (Key::Int(a), Key::Int(b)) => *a == *b,
            (Key::Uint(a), Key::Uint(b)) => *a == *b,
            (Key::Bool(a), Key::Bool(b)) => *a == *b,
            (Key::String(a), Key::String(b)) => {
                let x: &String = &**a;
                let y: &String = &**b;
                x.eq(y)
            },
            _ => false,
        }
    }
}

impl Clone for Key {
    fn clone(&self) -> (r: Self)
        ensures
            r == *self,
    {
        match self {
            Key::Int(i) => Key::Int(*i),
            Key::Uint(u) => Key::Uint(*u),
            Key::Bool(b) => Key::Bool(*b),
            Key::String(s) => Key::String(share(s)),
        }
    }
}

/// A CEL value.
#[derive(Debug, PartialEq)]
pub enum Value {
    List(Arc<Vec<Value>>),
    Dict(Arc<ValueMap>),
    Int(i64),
    UInt(u64),
    String(Arc<String>),
    Bytes(Arc<Vec<u8>>),
    Bool(bool),
    Null,
}

/// The CEL name of the type of `v`.
pub open spec fn type_name_of(v: Value) -> Seq<char> {
    match v {
        Value::List(_) => "list"@,
        Value::Dict(_) => "map"@,
        Value::Int(_) => "int"@,
        Value::UInt(_) => "uint"@,
        Value::String(_) => "string"@,
        Value::Bytes(_) => "bytes"@,
        Value::Bool(_) => "bool"@,
        Value::Null => "null"@,
    }
}

impl Clone for Value {
    fn clone(&self) -> (r: Self)
        ensures
            r == *self,
    {
        match self {
            Value::List(l) => Value::List(share(l)),
            Value::Dict(m) => Value::Dict(share(m)),
            Value::Int(i) => Value::Int(*i),
            Value::UInt(u) => Value::UInt(*u),
            Value::String(s) => Value::String(share(s)),
            Value::Bytes(b) => Value::Bytes(share(b)),
            Value::Bool(b) => Value::Bool(*b),
            Value::Null => Value::Null,
        }
    }
}

impl Value {
    /// The CEL name of this value's type.
    pub fn cel_type_name(&self) -> (r: &'static str)
        ensures
            r@ == type_name_of(*self),
    {
        match self {
            Value::List(_) => "list",
            Value::Dict(_) => "map",
            Value::Int(_) => "int",
            Value::UInt(_) => "uint",
            Value::String(_) => "string",
            Value::Bytes(_) => "bytes",
            Value::Bool(_) => "bool",
            Value::Null => "null",
        }
    }

    /// A map value holding the entries of `map`.
    pub fn from_map(map: ValueMap) -> (r: Value)
        ensures
            r == Value::Dict(Arc::new(map)),
    {
        Value::Dict(Arc::new(map))
    }
}

/// The entries of a CEL map value.
#[derive(Debug, PartialEq)]
pub struct ValueMap {
    table: Table<Key, Value>,
}

impl View for ValueMap {
    type V = Map<KeyView, Value>;

    closed spec fn view(&self) -> Map<KeyView, Value> {
        self.table@
    }
}

impl ValueMap {
    /// A map with no entries.
    pub fn new() -> (r: Self)
        ensures
            r@ == Map::<KeyView, Value>::empty(),
    {
        ValueMap { table: Table::new() }
    }

    /// Sets `key` to `value`, replacing what `key` held before.
    pub fn insert(&mut self, key: Key, value: Value)
        ensures
            final(self)@ == old(self)@.insert(key@, value),
    {
        self.table.insert(key, value);
    }

    /// The value under `key`, if any.
    pub fn get(&self, key: &Key) -> (r: Option<&Value>)
        ensures
            match r {
                Some(v) => self@.contains_key(key@) && *v == self@[key@],
                None => !self@.contains_key(key@),
            },
    {
        self.table.get(key)
    }
}

} // verus!
