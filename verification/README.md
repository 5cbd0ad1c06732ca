# shared

The domain library of a task-list web application: themes, priorities, items and the item
collection, the rules of the item list (search, filters, the new-item form), the storage
diagnostics shown to the user, a CSV import/export engine and the framing of compressed
state backups. Every function in `src/` is verified with Verus against its contract.

Layout:

- `src/models.rs` — themes, priorities, items, the collection and the application state.
- `src/text.rs` — white-space trimming, case folding, substring search, decimal numbers.
- `src/export.rs` — the CSV writer and reader, and the error type of the engines.
- `src/backup.rs` — zlib compression of serialized state (through `miniz_oxide`) and its
  base64 text form (through `base64`).
- `src/listing.rs`, `src/storage.rs` — the rules behind the item list and storage panels.
- `src/laws.rs`, `src/round_trip.rs` — proved properties, among them that a CSV export of
  a collection imports back to the same items.
- `app/` — the Leptos interface, browser storage, and JSON/BSON serialization with serde.
- `tests/` — tests run against the compiled library.
