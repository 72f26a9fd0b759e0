# duckdb_binding

An embedded analytical database as a backend of tools, resources and prompts.
One binding is one statement that the operator fixed, exposed under a name. The
values that a caller supplies are bound to the `?` placeholders of that
statement; they never become part of its text.

The rules of the backend are a library verified with Verus:

- the description of a binding and the checks that it has to pass
  (`src/types.rs`, `src/register.rs`);
- the registered bindings and the steps of a call (`src/plugin.rs`,
  `src/call.rs`);
- the statements, binds, cells and rows (`src/duckdb.rs`, `src/params.rs`,
  `src/sql.rs`, `src/surface.rs`);
- the replies, their schemas and the audit trail (`src/envelope.rs`,
  `src/audit.rs`);
- the watch on a database file (`src/watch.rs`);
- what holds of all of it together (`src/laws.rs`).

`app/` is the program around it: the engine and its pool, the asynchronous
runtime, the clock, and the shapes in which descriptions come over the wire. The
read-only guard, the expression language and the redaction of secrets belong to
the gateway and come in through the traits of `app/gateway.rs`.

What the library believes of `serde_json`, `base64` and the standard library
without proof stands in the trusted items of `src/json.rs`, `src/duckdb.rs` and
`src/text.rs`.
