# elio_query

The query engine core of the elio graph database, written in Verus: the executable code carries
`requires`/`ensures` contracts that Verus proves.

## Layout

- `src/` — the verified library.
  - `scalar`, `data_type`, `bits`, `array`, `catalog`: values, logical types, bit masks (over the
    `bitvec` crate), variant arrays and catalog entries.
  - `function/`: the scalar functions (arithmetic, three-valued logic, comparisons, list
    functions, conversions), the aggregates (`count`, `count(*)`, `sum`, `collect`), signature
    matching with untyped `NULL` coercion, and the case-insensitive function registries.
  - `execution/`: filtering, `DISTINCT`, cross products, `SKIP`/`LIMIT`, `UNWIND`, hash
    aggregation (`DISTINCT` and aggregation both index their rows with `hashbrown`'s
    `HashTable`), the gathering of rows into chunks, the decisions of node scans and index
    seeks, unique constraint index building, the checks of `CREATE`, task transaction handling
    and operator statistics.
  - `plan/`, `ir/`, `binder/`, `optimizer`: logical plan nodes and their rewriting, path
    patterns, query parts, token resolution through the planner session, the assembly of
    projections (grouping keys, aggregate lifting, distinct and regular projections) and the
    `Apply` unnesting rule.
  - `database/`: configuration, DDL prechecks, result handles and session errors.
- `app/` — ordinary Rust around the library: IEEE double arithmetic and display text that the
  library hands back, error types with their messages, serialisable catalog entries, profile
  rendering with `pretty_xmlish`, the default registries and the executor loops.
- `tests/` — tests that run the library with the real outside crates linked.

Floats are carried by their IEEE-754 bits. Wherever a result needs float arithmetic, parsing or
formatting, the library returns a request that names the operation and its operands, and the
caller completes it.
