# pae_engine

The engine of a zero-knowledge personal portfolio analytics service: it stores
client-side encrypted holdings, keeps an append-only, content-addressed version
history of encrypted entities, derives keys and encrypts text for clients, reviews
uploaded broker CSV files, and computes portfolio risk analytics over HTTP.

## Layout

- `src/` — the library, verified with Verus:
  - `text.rs`, `codec.rs`: character-level text handling, base64, UTF-8, SHA-256
    and hexadecimal encodings;
  - `crypto/vault.rs`: Argon2id key derivation and AES-256-GCM encryption, with
    the round trip between `encrypt` and `decrypt` proved;
  - `versioning/`: the version store, whose histories are hash chains numbered
    from 1 (kept by every append and checked by `verify_chain`);
  - `storage/db.rs`: the records of the encrypted database and every check a
    write must pass;
  - `api/`: request and response types and the logic of the HTTP handlers: CSV
    scanning and review, base64 decoding of ciphertext fields, error mapping,
    request validation;
  - `risk/`: the integer and text parts of the risk engine (shock tables,
    simulation and window parameters).
- `app/` — the HTTP server (axum), the SQLite store (rusqlite) and the
  floating-point analytics, calling the library for every decision.
- `tests/` — tests of the library.
