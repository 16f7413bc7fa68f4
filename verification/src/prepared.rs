//! Values prepared once and shared cheaply between contexts.

use std::sync::Arc;
use vstd::prelude::*;
use vstd::std_specs::convert::TryFromSpecImpl;

use crate::error::ExecutionError;
use crate::value::{share, type_name_of, Value};

verus! {

/// An immutable CEL value that can be shared cheaply between contexts.
///
/// Preparing a value performs the conversion into the evaluator's
/// representation once. Cloning this handle only copies a reference-counted
/// pointer, and the clone holds the same value.
pub struct PreparedValue {
    value: Arc<Value>,
}

impl View for PreparedValue {
    type V = Value;

    closed spec fn view(&self) -> Value {
        *self.value
    }
}

impl Clone for PreparedValue {
    fn clone(&self) -> (r: Self)
        ensures
            r@ == self@,
    {
        PreparedValue { value: share(&self.value) }
    }
}

impl PreparedValue {
    /// Converts a CEL [`Value`] into a reusable prepared value.
    ///
    /// Every value of this library has a prepared form, so the conversion
    /// always succeeds and keeps the value.
    pub fn try_from_value(value: Value) -> (r: Result<Self, ExecutionError>)
        ensures
            r matches Ok(p) && p@ == value,
    {
        Ok(Self::from_boxed(Box::new(value)))
    }

    /// Wraps a value that is already in the evaluator's representation.
    pub(crate) fn from_boxed(value: Box<Value>) -> (r: Self)
        ensures
            r@ == *value,
    {
        PreparedValue { value: Arc::new(*value) }
    }

    /// The value behind this handle.
    pub(crate) fn as_val(&self) -> (r: &Value)
        ensures
            *r == self@,
    {
        &*self.value
    }

    /// The value behind this handle, as a value of its own.
    pub(crate) fn into_value(self) -> (r: Value)
        ensures
            r == self@,
    {
        self.as_val().clone()
    }

    /// The CEL runtime type name of the value, without formatting the value.
    pub fn cel_type_name(&self) -> (r: &str)
        ensures
            r@ == type_name_of(self@),
    {
        self.as_val().cel_type_name()
    }

    /// A debugging description that names the type and leaves the value out.
    pub fn debug_string(&self) -> (r: String)
        ensures
            r@ == "PreparedValue { type: \""@ + type_name_of(self@) + "\", .. }"@,
    {
        let mut s = "PreparedValue { type: \"".to_owned();
        s.append(self.cel_type_name());
        s.append("\", .. }");
        s
    }
}

impl TryFrom<Value> for PreparedValue {
    type Error = ExecutionError;

    fn try_from(value: Value) -> (r: Result<Self, Self::Error>)
        ensures
            r matches Ok(p) && p@ == value,
    {
        Self::try_from_value(value)
    }
}

impl TryFromSpecImpl<Value> for PreparedValue {
    open spec fn obeys_try_from_spec() -> bool {
        true
    }

    closed spec fn try_from_spec(v: Value) -> Result<Self, ExecutionError> {
        Ok(PreparedValue { value: Arc::new(v) })
    }
}

} // verus!
