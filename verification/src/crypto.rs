//! Cryptography: the algorithm catalog and profiles, bounded byte values, and the
//! composition of KEM, KDF and AEAD backends into hybrid key exchange and sealing.

pub mod alg;
pub mod profile;
pub mod error;
pub mod bytes;
pub mod kdf;
pub mod aead;
pub mod kem;
pub mod mlkem;
pub mod x25519;
pub mod hybrid;
pub mod seal;
pub mod sign;
pub mod mldsa;
pub mod lms;
