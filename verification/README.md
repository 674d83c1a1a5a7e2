# stryke-scylla

ScyllaDB / Apache Cassandra client for stryke: CQL queries, keyspaces and tables,
and schema introspection, JSON text in and JSON text out.

- `src/` is the library, verified with Verus: reading requests, building CQL,
  quoting and formatting values, resolving contact points, leading a request from
  no session to its reply, and turning rows into JSON. Everything that `serde_json`,
  `uuid` and the driver compute for it stands behind a few trusted declarations, in
  `src/json/codec.rs` and `src/rows.rs`; `src/text.rs` has one for `String::push`.
- `app/` is the shared library around it: the C functions, the embedded runtime and
  the calls into the `scylla` driver.
- `tests/` are ordinary Rust tests of the library; no cluster is needed.

Connection parameters come with every request: `nodes`, or `node` / `host` with
`port`, and `username`, `password`, `keyspace`. Where no node is given, the
comma-separated `$SCYLLA_NODES` is used, else `127.0.0.1:9042`.
