# World Loom

A small, bounded voxel world that players and tools edit together. The crate holds its rules as a
verified library; the server around it is ordinary Rust.

- `src/` is the library. Every rule that decides what happens to the world, to a saved chunk, to a
  build or to a tool call is a function here with a contract.
  - `world_command`, `build_plan`, `build_service`, `build_palette`: what may be placed or removed,
    build plans, and builds that can be undone exactly.
  - `persistence`, `anvil`, `packing`, `writer`: saved overrides, their Anvil form, and the batches
    in which edits are written.
  - `sculpt_spec`, `sculpt_json`, `asset_service`, `scalar`: declarative assets and their instances. Numbers with
    a fraction are held by their bit pattern.
  - `mcp`, `bridge`, `server`, `chunks`: tool calls, the browser bridge, player edits, and the
    chunks that are loaded around players.
  - `block`, `layer`, `registry`, `json`, `digest`, `ids`: what the rules take from outside crates.
  - `text`, `position_map`, `ordered_map`: the texts and collections that the rest is built on.
- `app/` runs it: the game loop, the database and the region files, the HTTP server, and what is
  computed in floating point.
- `tests/` runs the library on concrete values.

A law that relates several functions is a public `proof fn` beside them.
