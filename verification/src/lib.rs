//! KOFFER: a post-quantum root-of-trust toolkit. The wire formats (CBOR messages,
//! update manifests, COSE envelopes), the crypto profiles, and the composition of
//! the key-encapsulation, key-derivation and AEAD primitives into sealed payloads.

pub mod wire;
pub mod crypto;
pub mod difftest;
pub mod testutil;
pub mod demo;
