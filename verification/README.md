# basaltsql

A small SQL engine whose pipeline is verified with Verus: a lexer, a
recursive-descent parser, an analyser that binds statements against a
catalog, an executor with SQL three-valued logic, and in-memory row
storage, all behind `db::Database`.

## Layout

- `src/types.rs`: column types, values, rows, and the float unit through
  which FLOAT arithmetic is requested (values of type FLOAT are carried as
  IEEE-754 binary64 bit patterns).
- `src/lexer/`: tokens, the lexer, and what it computes (`spec.rs`).
- `src/parser/`: the AST, the parser (`expr.rs`, `statement.rs`), and the
  grammar it follows (`spec.rs`).
- `src/catalog.rs`, `src/storage.rs`, `src/entries.rs`: schemas and rows,
  kept as name-keyed entry lists viewed as maps.
- `src/analyser/`: bound statements and the binding rules.
- `src/executor/`: evaluation and statement execution, with the laws of
  evaluation in `laws.rs`.
- `src/db/`: the whole pipeline, the invariants every database keeps
  (`consistency.rs`) and the laws of running statements (`laws.rs`).
- `tests/`: tests of each stage and of the whole pipeline.
- `app/`: a REPL around the library; it supplies the float unit (`f64`).

Every executable function in `src/` carries a contract that Verus proves.
The only trusted items are the calls into `char`'s Unicode classification,
`str`'s `Debug` formatting, and `String::push`.
