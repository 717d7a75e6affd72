# caminus

The decisions of a change-data-capture pipeline, verified with Verus.

- `src/source.rs`: change events.
- `src/snapshot/`: reconciling a snapshot chunk with the replication log between two watermarks
  (`watermark.rs`, on the keyed rows of `chunk.rs`), and spooling under backpressure
  (`spooler.rs`).
- `src/storage/`: which schema changes are compatible (`compatibility.rs`), which payloads a schema
  accepts (`validation.rs`), the registry that decides on both (`schema.rs`), and the handshake by
  which a new schema version is negotiated (`handshake.rs`).
- `src/json/`: JSON values. They come from `serde_json`, which also writes them out; what is
  believed of it stands in `outside.rs`.
- `src/snapshot/laws.rs` and `src/storage/laws.rs`: what holds of all of this as a whole.
- `app/`: the pipeline around the library, with its state store, services and serialisation.
