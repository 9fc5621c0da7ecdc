# koffer

The software core of a post-quantum hardware root of trust: the wire formats it speaks
and the cryptographic flows it runs, written in Verus and proved against their
contracts.

## Layout

- `src/wire/` — the canonical CBOR layer and the protocol types built on it:
  printable-ASCII strings, algorithm identifiers, digests, bounded byte strings, error
  codes, SUIT-style firmware manifests, `COSE_Sign1` / `COSE_Encrypt`, and the
  host/device request and response messages. Every encoder is proved to write exactly
  the bytes its model describes (always the shortest CBOR heads), and every decoder to
  return exactly what its parse model reads from the front of the input. The decoders
  also accept longer-than-needed CBOR heads, and read only a prefix: bytes after the
  value are left unread. Each type carries a round-trip law (`decode(encode(x)) == x`,
  whatever follows).
- `src/crypto/` — algorithm identifiers and crypto profiles, bounded byte buffers with
  constant-time equality and wiping, HKDF, AES-256-GCM and ChaCha20-Poly1305, ML-KEM,
  X25519 and the X25519+ML-KEM hybrid, ML-DSA and LMS/HSS, and the KEM+KDF+AEAD seal.
  The primitives themselves come from the RustCrypto, `x25519-dalek` and `hbs-lms`
  crates behind small trusted wrappers; everything around them is verified.
- `src/demo/` — the end-to-end flow: sign a manifest into a `COSE_Sign1` and verify it,
  seal a payload into a `COSE_Encrypt` and open it, in either crypto profile.
- `src/difftest/` — the known-answer-test file parser and the differential comparison
  of the ML-DSA, ML-KEM and LMS backends against independent references.
- `src/testutil.rs` — a deterministic counter source of entropy for reproducible runs.
- `app/` — the demonstration binary, and the reference implementations of the
  differential harness, which call C libraries.
- `tests/` — executable tests over the library.

## Checking

Verus checks every function in `src/` against its contract; `tests/` are ordinary Rust
tests run against the compiled library.
