//! Evaluation contexts for CEL programs: scoped variables, resolvers, user
//! functions, prepared values, and programs written as dotted paths.

pub mod context;
pub mod error;
pub mod expr;
pub mod functions;
pub mod laws;
pub mod prepared;
pub mod program;
pub mod table;
pub mod value;

pub use context::{Context, TryIntoValue, VariableResolver};
pub use error::{ExecutionError, ParseError};
pub use expr::Expression;
pub use functions::{Env, Function, FunctionRegistry, Handler, IntoFunction};
pub use prepared::PreparedValue;
pub use program::Program;
pub use value::{Key, Value, ValueMap};
