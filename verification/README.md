# axe-pkg

A private npm package registry. `src/` is the verified library (Verus): it
decides, for each HTTP request, what the registry stores, reads and answers,
and proves those decisions against their contracts. `app/` is the server
around it (axum, SQLite, the file system, the upstream npm registry), which
gathers plain values for the library and carries out what it returns.

- `src/names.rs` — name normalization, storage directories, tarball names, URLs
- `src/auth.rs` — header text and the publish key check
- `src/json.rs` — the JSON model of published package documents
- `src/publish.rs` — publish requests as ordered effects and an answer
- `src/package.rs` — package documents and search parameters
- `src/reply.rs` — answers and upstream / download outcomes
- `src/ui.rs` — the HTML package list
- `src/digest.rs` — SHA-256, hex and base64 from their crates
- `src/laws.rs` — properties across operations
- `tests/` — tests on concrete values
