# parsec

The services behind the Parsec IDE as a library written in Verus: each public
function states what it returns or changes in its contract, and Verus
proves the code against it.

## Layout

- `src/` — the library, all of it verified:
  - `accessibility` — screen reader queue, keyboard navigation and its history,
    voice commands, dyslexia aids, motion reduction, high contrast themes,
    colour-blind helpers and the engine that applies profiles;
  - `api_client` — REST requests and responses, environments and their
    `.env`/JSON import and export, Postman collections, GraphQL, gRPC and
    WebSocket bookkeeping;
  - `collaboration` — sessions, presence, comments, reviews, CRDT text,
    signalling, and AES-256-GCM encryption with X25519 key pairs;
  - `customization` — keybindings and their conflicts, layouts, profiles,
    settings sync, import and export;
  - `database` — schemas and the SQL that recreates them, ER diagrams, the
    query history, connection settings;
  - `debugging` — sessions, breakpoints, call stacks, variables, watches and
    the debug adapter protocol's bookkeeping;
  - `design` — colour parsing, icon sets and their browser, font registry;
  - `cloud` — provider listings and Docker/Kubernetes/serverless records;
  - `json`, `text`, `strmap`, `idmap`, `stamp` — JSON values, text helpers,
    insertion-ordered maps, and the clock and identifiers.
- `tests/` — the tests, run against the compiled library.
- `app/` — what Verus does not see: file and network access, the serde forms
  of stored profiles, keyboard events, and what is measured in floating point
  (colour arithmetic, workspace layouts, the reading guide).

Calls into outside crates (`regex`, `serde_json`, `sqlparser`, `petgraph`,
`chrono`, `uuid`, `aes-gcm`, `x25519-dalek`) go through small trusted
functions whose bodies Verus does not read; each one's doc comment says what
its contract claims of the call.
