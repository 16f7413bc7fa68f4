//! Errors of evaluation and of compilation.

use std::sync::Arc;
use vstd::prelude::*;

verus! {

/// Why evaluating an expression failed.
#[derive(Debug, PartialEq)]
pub enum ExecutionError {
    /// An identifier that no scope of the context defines.
    UndeclaredReference(Arc<String>),
    /// A map that has no entry under the selected field.
    NoSuchKey(Arc<String>),
    /// A value of type `got` where one of type `want` was needed.
    UnexpectedType { got: String, want: String },
}

/// What an execution error says, with its names taken by their characters.
pub enum ExecutionErrorView {
    UndeclaredReference(Seq<char>),
    NoSuchKey(Seq<char>),
    UnexpectedType { got: Seq<char>, want: Seq<char> },
}

impl View for ExecutionError {
    type V = ExecutionErrorView;

    open spec fn view(&self) -> ExecutionErrorView {
        match self {
            ExecutionError::UndeclaredReference(n) => ExecutionErrorView::UndeclaredReference(n@),
            ExecutionError::NoSuchKey(n) => ExecutionErrorView::NoSuchKey(n@),
            ExecutionError::UnexpectedType { got, want } => ExecutionErrorView::UnexpectedType {
                got: got@,
                want: want@,
            },
        }
    }
}

/// Why source text does not compile: the position (in characters) where it stops
/// being a dotted path of identifiers.
#[derive(Debug, PartialEq, Eq, Clone, Copy)]
pub struct ParseError {
    pub position: usize,
}

} // verus!
