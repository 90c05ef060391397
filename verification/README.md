# add_crypto_core

The cryptographic core of an end-to-end encrypted messenger, written in Verus
and verified: the classical double ratchet with ML-KEM-1024 re-keying, the
post-quantum KEM ratchet, the X25519 + ML-KEM-768 hybrid KEM and PQXDH
handshake, the passphrase vault of the master app key, 2-of-3 key splitting
over GF(2^8), blind PIR contact discovery, delivery tokens, size-bucket
padding, safety numbers, presence sealing, the reflector bot's session
logic, and the messenger's protocol decisions: the listener's inbound
session (`incoming.rs`), preparing and opening relayed, direct and onion
messages (`relay.rs`), waiting for a direct message's ack and receipt
(`sending.rs`), the hello gates (`handshake.rs`) and the DHT
registration and advertised address (`registration.rs`).

Layout:

- `src/` — the verified library. `primitives.rs` holds every call into an
  outside crate (AES-GCM, HKDF, HMAC, SHA-2/3, BLAKE2b, Argon2id, base64,
  hex, ML-KEM, ML-DSA, X25519, the OS random generator) behind contracts;
  everything else is proved against them. The std string operations the
  logic needs (space removal, pattern replacement, `u16` parsing) are
  verified loops there too. Laws relating several operations
  are public proof functions named `law_*`; `ratchet_laws.rs` gathers those
  of the double ratchet.
- `tests/` — tests run against the compiled library with the real outside
  crates.
- `app/` — the command-line front end: files, environment, clock, memory
  locking and the reflector's connection loop.
