# nacre

The type checker of Nacre, a small typed scripting language that compiles
to Bash, together with the parts of its Bash backend that depend on nothing
but the syntax tree. Every function is verified with Verus.

## Layout

- `src/ast.rs` — the syntax tree: types, expressions, statements, programs,
  and the mathematical model `TypeModel` that contracts speak of.
- `src/checker.rs` and `src/checker/` — the checker's state and its checks:
  - `relations.rs`: when one type accepts a value of another;
  - `resolve.rs`: resolution of type names and aliases;
  - `exprs.rs`, `calls.rs`, `values.rs`, `forms.rs`, `methods.rs`,
    `mappers.rs`, `sequencing.rs`, `matching.rs`: expressions;
  - `declarations.rs`, `statements.rs`: declarations, statements, programs;
  - `inspected.rs`: which parts of a program the execution policy forbids;
  - `outcomes.rs`: the outcome of checking plain expressions, statements and
    blocks, stated from the declarations and the variables in scope.
- `src/policy.rs` — the execution policy: allowed commands and filesystem roots.
- `src/names.rs`, `src/type_utils.rs`, `src/validation.rs` — names, type
  helpers, string interpolation and control-flow summaries.
- `src/emitter.rs` — names and Bash snippets of the backend.
- `src/laws.rs` — properties that hold of every input.
- `src/collections.rs`, `src/text.rs`, `src/error.rs` — an association map
  keyed by views, string helpers and the compile error.

The tests under `tests/` run the library on hand-built syntax trees.
