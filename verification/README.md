# malm_engine

The decisions of a deployment engine, written and proved in Verus: how a private state root is
opened, initialized and pinned; how objects are read and published; how local and Git packs are
captured; how a lock graph is resolved; how configurations become plans; and how generations are
disabled, enabled, checked out and retained.

- `src/` holds the verified library. State machines take the reply to the last action and say
  what to do next; parsers and planners take and return plain values. Laws that span several
  functions are public proof functions named `lemma_..`.
- `app/` is the host side: it opens files, runs Git, draws random bytes and reports events.
- `tests/` runs the library on concrete values.

The library calls two crates itself: `hex` for staging names and `lzma-rs` for compressed assets.
What it believes of them, and of a few functions of `std`, stands in the doc comments of the
functions marked `external_body`.
