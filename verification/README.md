# sql_planner

Planning rules of a SQL planner, written in Verus: executable Rust with contracts that are
proved.

- `src/window.rs`, `src/property.rs`: window operators, their functions and frames, the columns
  they use and the properties they derive.
- `src/merge_into.rs`, `src/matched.rs`, `src/unmatched.rs`: the binding of `MERGE INTO`
  statements. Binding is a state machine: it says what it needs of the planner around it
  (catalog, name resolution, metadata, binding of tables and expressions) and takes the replies.
- `src/merge_laws.rs`, `src/merge_log.rs`: what holds of every statement that is bound to the end,
  and how its plan follows from what was asked and replied.
- `src/statement.rs`, `src/schema.rs`, `src/scalar.rs`, `src/error.rs`, `src/text.rs`: the plain
  data that the rules work on.
- `app/`: the unverified edge: the loop that serves the binder from a host planner,
  floating-point estimates, serialization and display of frames.
