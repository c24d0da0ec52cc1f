# giskard

The decisions of a session harness around the Codex app-server, written in Verus: what a frame on the
app-server's pipes means, which answer belongs to which request, what waits and what is served at once,
how a context limit is applied to a loaded thread, how goals, queued input, credential services, forms
and client-executed tools are handled, and which changes a session takes.

- `src/` is the verified library. It holds no I/O: every function is a function of plain values, and the
  longer exchanges are state machines that take one event and name the next action.
- `tests/` runs the library, with the outside crates linked.
- `app/` holds the pipes, processes, timers and persisted shapes around it.

What the library takes on trust stands in its own items, each with a doc comment that names the outside
function and says what is claimed of it: `serde_json` (`json.rs`), `codex_codes` (`protocol.rs`),
`jsonschema` (`schema.rs`), `chrono` (`clock.rs`) and a few functions of `std` (`text.rs`,
`protocol.rs`).

A JSON Schema is handed to `jsonschema` only where reading it, and holding it against any value, comes to an
end without a panic; other schemas are refused with the library's own words. `schema_shape.rs` tells the two
apart: `references.rs` says where references may lead, `schema_walk.rs` how a checker goes through a schema,
`patterns.rs` which regular expressions are matched without going back, and `graph.rs` finds the circles.

Statements that span functions are public proof functions whose names start with `law_`.
