# lib

Evaluation contexts for CEL programs, verified with Verus.

- `src/context.rs`: `Context` (root and child scopes), `VariableResolver`,
  `TryIntoValue`, and the scope model the contracts speak of (`Scope`,
  `possible_lookup`, `plain_lookup`).
- `src/prepared.rs`: `PreparedValue`, a value prepared once and shared by handle.
- `src/value.rs`: `Value`, `Key`, `ValueMap`.
- `src/expr.rs`: `Expression` and its evaluation against a context.
- `src/program.rs`: `Program`, compiled from a dotted path of identifiers.
- `src/functions.rs`: user functions (`Handler`, `IntoFunction`, `Function`, `FunctionRegistry`) and `Env`.
- `src/table.rs`: the association table behind variables, functions and maps.
- `src/laws.rs`: properties that relate several operations, proved.
- `tests/`: tests run against the compiled library.
