# convergio_scheduler

Policy-based task scheduling for a mesh of peers, verified with Verus.

- `src/` is the verified library. `types` holds the data types and their
  views; `policy` scores peers, selects the best one and converts policies
  to and from their stored rows; `routes` makes the decision behind the
  HTTP API, groups peer capabilities and bounds the history limit; `text`
  renders fixed-point numbers in decimal; `schema`, `mcp_defs` and `ext`
  hold the migrations, the MCP tool definitions, and the manifest, health
  and metrics of the module.
- `app/` is the unverified shell: JSON types with serde, SQLite access
  with rusqlite, and the axum router.
- `tests/` runs the library on concrete values.

Fractions are fixed-point numbers in parts per million and money is in
micro-USD, so that every rule can be stated exactly; `app/` converts
to and from the decimal numbers that clients and the database use.
