# apicentric

A verified library for simulating HTTP APIs from service definitions:
routing requests to endpoints, choosing responses (conditions, scenarios,
rotations), keeping fixture and runtime state, recording unknown routes and
proxied traffic, importing and exporting collection formats (OpenAPI,
Postman, Mockoon), and generating client code.

Layout:

- `src/` — the library, written in Verus: every function carries a
  contract, and Verus proves it. `src/exchange.rs` answers one request step
  by step; `src/lifecycle.rs` and `src/registry.rs` register and start
  services once their ports were bound; `src/state.rs` holds the service
  state and the laws about it.
- `tests/` — tests run against the compiled library.
- `app/` — ordinary Rust around the library: reading files, YAML and JSON
  text, binding ports, running scripts and rendering templates, and the
  serde copies of the configuration types.
