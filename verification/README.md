# stdb_unreal

Networking logic for Unreal Engine games that keep their world in SpacetimeDB:
objects and actors with replicated properties, remote procedure calls, client
connections, and network relevancy (which clients get which updates).

The library is written in Verus. Every function in `src/` carries a contract
(`requires`/`ensures`) that the verifier proves against its body; properties
that relate several functions are stated and proved as `law_*` proof
functions next to the code they are about.

## Layout

- `src/collections.rs` — an association map with insertion order, used where
  the game keeps tables keyed by ID or name.
- `src/text.rs`, `src/text_parse.rs` — string helpers and decimal parsing.
- `src/json.rs` — JSON documents as trees (`JsonValue` read, `JsonOut` written).
- `src/shared/` — the types shared by client and server: IDs, vectors and
  transforms (float components kept as bit patterns), property values and
  types, lifecycle states, RPC and relevancy types.
- `src/client/` — the game client: object and actor registries, property
  definitions and the staging cache, property (de)serialization, connection
  state and subscriptions, client-side prediction, RPC requests and answers.
- `src/server/` — the server module: connections, actors and objects, property
  definitions and replication, validation, RPC registry and dispatch,
  relevancy zones and the relevancy cache, replication bookkeeping.
- `app/` — the parts that are not verified: process-wide state, JSON text in
  and out (through `serde_json`), floating-point arithmetic (rotator to
  quaternion, distances, text of float values), and the demo game functions.
- `tests/` — tests of the library on concrete values.

Time and randomness (for temporary client-side object IDs) come from the
standard library and `rand` through a few small trusted functions in
`src/client/object.rs`, each making one call and claiming nothing about the
value it returns.
