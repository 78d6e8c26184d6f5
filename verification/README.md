# retheme_codex

The engine that previews a ReTheme theme inside an isolated ChatGPT window.

- `src/` is the engine's logic, verified with Verus: the session of a preview, the server of a
  theme's assets, the exchange with the page, the expressions that the page evaluates, and the
  search for the installed application.
- `app/` is the engine at work: processes, sockets, files and the platforms' own interfaces. It
  performs what the library decides and hands back what it saw.
- `tests/` runs the library, with the outside crates that it calls.

What the library takes from outside crates stands in `json.rs`, `property_list.rs`, `endpoint.rs`,
`token.rs`, `bytes.rs`, `clock.rs` and `text.rs`; each such item says what it claims of the crate.
