# audit-trail

Tamper-evident audit logging: every audited event (who / what / when /
where / result) becomes a record that carries the hash of the record before
it. When the chain is replayed through a verifier, dropping, reordering or
inserting a record before the last one is detected, and so is editing one:
a new stored hash breaks the link from the next record, and a kept one no
longer matches the record's contents unless the hash function collides.
The last record is protected by its own hash alone.

## Layout

- `src/` — the library, verified with Verus:
  - `record.rs`, `clock.rs`, `hash.rs`, `error.rs` — the record and its parts,
    timestamps, digests, the `Hasher` and `Clock` traits, errors;
  - `canonical.rs` — the byte string hashed for each record;
  - `chain.rs` — the append-only `Chain` and its state model;
  - `verify.rs` — the `Verifier`, and the proofs that it accepts what
    a chain appends and rejects dropped, reordered, inserted or edited
    records;
  - `codec.rs` — the stable file and frame format, with round-trip proofs;
  - `reader.rs` — the decisions of a streaming file reader;
  - `sinks/`, `hashers/` — `MemorySink`, the frame a file sink writes, and
    the SHA-256 hasher (`sha2`).
- `tests/` — unit and scenario tests.
- `app/` — file input and output: `FileSink` and `FileReader`.
