# elegant_clipboard

The logic of a Windows clipboard manager, written in Verus and proved against its
contracts: what is captured and how it is stored, de-duplication, file clipboard
payloads, search queries and keyword snippets, locked items and deletion, display
order, text edits, imports from other devices, the database registry, switching and
moving databases, their migrations, backups and the swap of an imported database,
shortcuts and paste keys, the clipboard watcher's state, preview leases, translation
requests, update checks and window placement.

- `src/` is the verified library. Each module states its behaviour in `requires` /
  `ensures` over spec functions; properties that span several calls are stated and
  proved as public `lemma_*` proof functions.
- `tests/` runs the library on concrete values.
- `app/` is the unverified shell: JSON files and serde records, deleting files, threads,
  and drivers that carry out what the library's state machines decide (storing a
  capture, running migrations, swapping in an imported database, sending key strokes,
  HTTP translation calls).
