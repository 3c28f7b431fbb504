# qem

The part of a text engine that saves documents, keeps their undo history and
compacts their piece tables, as a Verus library.

The library performs no input or output. Where an operation reaches the session
sidecar, the saved file or a text codec, it calls a function that its caller hands
in, and its contract says what that function is given and what follows from each
answer.

- `src/document.rs`: documents; `src/storage.rs`, `src/rope.rs` and
  `src/piece_table.rs`: what can hold one
- `src/compaction.rs`: when a piece table is worth compacting, and compaction
- `src/stream.rs`: a save as a stream of writes with progress
- `src/persistence.rs`: sessions, undo and redo, saves
- `src/laws.rs`: what holds of the library as a whole
- `src/path.rs`, `src/encoding.rs`, `src/error.rs`, `src/text.rs`, `src/parts.rs`,
  `src/shared.rs`: what the others build on
- `app/`: the same operations on the file system
