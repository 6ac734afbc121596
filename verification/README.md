# query_engine

A small SQL query engine: SQL text is tokenized, parsed into a syntax tree,
planned into a logical plan over registered tables, optimized by projection
push-down, and planned into a physical plan that an executor runs over Arrow
record batches.

## Layout

- `src/` — the library, verified with Verus. Every public function states in
  its contract what it returns, over mathematical models of its inputs:
  - `sql/` — tokenizer, token stream, Pratt parser, and the planner from a
    `SELECT` to a logical plan;
  - `logical_plan/`, `dataframe.rs` — logical plans, their schemas and text,
    and a builder for them;
  - `optimizer/` — projection push-down;
  - `query_planner/`, `physical_plan/` — physical plans, their schemas and
    text, and the grouping of rows that the hash aggregation uses;
  - `execution/` — registered tables and the way from SQL to plans;
  - `names.rs`, `schema.rs`, `data_source/`, `text.rs`, `utils.rs` — sets of
    column names, schemas, data sources, text helpers.
- `app/` — ordinary Rust around the library: reading CSV and Parquet files,
  running physical plans with Arrow kernels, and error types with `Display`.
- `tests/` — tests of the library.

The library holds no floating-point values: a double literal is kept as its
text (a plain decimal in its shortest form, other forms as written), and the
executor in `app/` reads it as an `f64`.
