# trade_meta_compiler

A domain-independent checker for trading-strategy programs, verified with
Verus.

- `src/ast.rs` — the syntax tree of the strategy language.
- `src/types.rs` — types, their compatibility, and the typing of operators.
- `src/symbol_table.rs` — units, type aliases, parameters, implicit-context
  declarations, symbol metadata and the symbol registry.
- `src/builtin_symbols.rs` — the registry of built-in symbols.
- `src/checker.rs` — the semantic checker, with its model (`Scope`): typing,
  symbol use, required parameters and the flow of implicit contexts.
- `src/laws.rs` — properties that hold across the checker's parts.
- `src/error.rs` — the checker's errors and their messages.
- `src/runtime_value.rs` — runtime values and their types.
- `src/text.rs` — string helpers for messages.
- `app/` — link-time registration through `inventory`, `f64` conversions,
  the type-erased task payload, and `Display` for errors.

Numbers in the syntax tree and in runtime values are held as IEEE-754 bit
patterns (`FloatBits`); `app/` converts them to and from `f64`.
