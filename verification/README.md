# trurl

Trurl keeps a project's architectural decisions in `.trurl/` and serves
them to coding agents. This crate holds the logic of Trurl as a library
verified with Verus, plus a small command-line program around it.

## Layout

- `src/` — the verified library
  - `schema.rs` — the model of `.trurl/` (project, components, decisions,
    patterns, graph index) and its referential-integrity invariant
  - `namemap.rs` — name-ordered maps (the iteration order of the files)
  - `naming.rs` — kebab-case names, slugs, first free decision name
  - `decision.rs` — recording and removing decisions, with the laws that
    tie them together (integrity is kept; a removal undoes a recording)
  - `prompt.rs`, `prompts.rs`, `prompt_text.rs`, `concerns.rs`,
    `graph.rs`, `render.rs` — the design-session prompts, specified to
    the character
  - `token.rs` — token generation and constant-time checks for the map
    server
  - `session.rs` — the step-by-step design session as a state machine
    (which outside work comes next, and how completed steps evolve)
  - `watch.rs`, `ws.rs`, `tools.rs`, `status.rs` — the decisions taken
    by the watchers and the WebSocket, the MCP tool list and tool calls,
    and the server start-up lines
  - `digest.rs` — content hashes (SHA-256, hex) of the files that the
    graph index records
  - `text.rs`, `clock.rs`, `error.rs` — helpers, the clock, errors
- `app/` — the program: TOML files in and out, locking, file watching,
  HTTP/WebSocket glue, JSON envelopes, the CLI
- `tests/` — tests of the library
