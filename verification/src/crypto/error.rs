//! Error types for the cryptographic operations.
//!
//! Each operation (signing, verifying, key exchange, authenticated encryption, key
//! derivation) has its own error enum listing only the cases that operation can produce.
use vstd::prelude::*;

verus! {

/// What can go wrong while producing a signature.
#[derive(Debug, Clone, Copy, PartialEq, Eq, Structural)]
#[non_exhaustive]
pub enum SignError {
    /// The one-time signing budget is spent: a stateful hash-based key may sign only a
    /// fixed number of times and never reuse a one-time key.
    KeyExhausted,
    /// The supplied signing-key bytes are not a valid key.
    MalformedKey,
    /// The requested algorithm is not built into this device.
    UnsupportedAlgorithm,
    /// An unexpected device-side failure, such as the randomness source failing.
    Internal,
}

/// What can go wrong while verifying a signature.
#[derive(Debug, Clone, Copy, PartialEq, Eq, Structural)]
#[non_exhaustive]
pub enum VerifyError {
    /// The signature is well-formed but does not match the key and message.
    VerificationFailed,
    /// The signature bytes cannot be read as a signature at all.
    MalformedSignature,
    /// The supplied public-key bytes are not a valid key.
    MalformedKey,
    /// The requested algorithm is not built into this device.
    UnsupportedAlgorithm,
}

/// What can go wrong during key exchange (encapsulation or decapsulation).
///
/// There is deliberately no "decapsulation failed" case: a conforming KEM returns a
/// deterministic pseudorandom secret for an invalid but well-formed ciphertext.
/// `MalformedCiphertext` covers only a structurally broken (wrong-length) ciphertext.
#[derive(Debug, Clone, Copy, PartialEq, Eq, Structural)]
#[non_exhaustive]
pub enum KemError {
    /// A supplied key is not valid: the public key when encapsulating, or the secret
    /// key when decapsulating.
    MalformedKey,
    /// The ciphertext is the wrong length or shape and cannot be read.
    MalformedCiphertext,
    /// The requested algorithm is not built into this device.
    UnsupportedAlgorithm,
    /// An unexpected device-side failure.
    Internal,
}

/// What can go wrong during authenticated encryption (sealing or unsealing).
///
/// `UnsealFailed` is the security-critical case: the authentication tag did not match,
/// so the ciphertext or the associated data was altered, or the wrong key or nonce was
/// used. No plaintext is released, and every authentication failure returns this same
/// error.
#[derive(Debug, Clone, Copy, PartialEq, Eq, Structural)]
#[non_exhaustive]
pub enum AeadError {
    /// Authentication failed. No plaintext is released.
    UnsealFailed,
    /// The supplied key bytes are not a valid AEAD key (wrong length).
    MalformedKey,
    /// The supplied nonce is not the size the AEAD requires.
    MalformedNonce,
    /// The requested algorithm is not built into this device.
    UnsupportedAlgorithm,
    /// An unexpected failure, such as the input exceeding the AEAD's maximum length.
    Internal,
}

/// What can go wrong during key derivation.
#[derive(Debug, Clone, Copy, PartialEq, Eq, Structural)]
#[non_exhaustive]
pub enum KdfError {
    /// The requested output is longer than the KDF can produce.
    InvalidOutputLength,
}

} // verus!
