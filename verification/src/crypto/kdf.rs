//! Key-derivation (KDF) trait and the HKDF backend.
//!
//! A key-derivation function turns one secret, such as a shared secret from a key
//! exchange, plus context into uniformly random key bytes. HKDF first compresses the
//! input keying material into a pseudorandom key, then expands that into the requested
//! number of output bytes. The backend is generic over the hash: SHA-256 for the
//! showcase profile, SHA-384 for the CNSA 2.0 profile.
use vstd::prelude::*;
use core::marker::PhantomData;
use crate::crypto::error::KdfError;

verus! {

/// The `sha2::Sha256` hash, declared so that the HKDF backend can be named over it;
/// nothing inside it is visible to proofs.
#[verifier::external_type_specification]
#[verifier::external_body]
pub struct ExSha256(sha2::Sha256);

/// The `sha2::Sha384` hash, declared likewise.
#[verifier::external_type_specification]
#[verifier::external_body]
pub struct ExSha384(sha2::Sha384);

/// A key-derivation backend: expand a secret plus context into output key bytes.
pub trait Kdf {
    /// The output stream for `salt`, `ikm` and `info`: a derivation of `n` bytes gives
    /// its first `n` bytes.
    spec fn output(&self, salt: Seq<u8>, ikm: Seq<u8>, info: Seq<u8>) -> Seq<u8>;

    /// The longest output the KDF produces.
    spec fn max_output(&self) -> nat;

    /// Derives `okm.len()` bytes of output keying material into `okm`.
    ///
    /// `salt` is optional non-secret randomness (an empty slice means "no salt"), `ikm`
    /// is the input keying material (the secret), and `info` is a context label that
    /// binds the output to its purpose. Fails only if `okm` is longer than the KDF can
    /// produce, leaving `okm` untouched.
    fn derive(&self, salt: &[u8], ikm: &[u8], info: &[u8], okm: &mut [u8]) -> (r: Result<(), KdfError>)
        ensures
            old(okm)@.len() <= self.max_output() ==> r is Ok && takes_prefix(
                final(okm)@,
                self.output(salt@, ikm@, info@),
                old(okm)@.len(),
            ),
            old(okm)@.len() > self.max_output() ==> r == Err::<(), KdfError>(
                KdfError::InvalidOutputLength,
            ) && final(okm)@ == old(okm)@,
    ;
}

/// `out` is the first `n` bytes of `stream`.
pub open spec fn takes_prefix(out: Seq<u8>, stream: Seq<u8>, n: nat) -> bool {
    out.len() == n && forall|i: int| 0 <= i < n ==> out[i] == stream[i]
}

/// Two derivations from the same inputs agree on their common length: a shorter output
/// is a prefix of a longer one (HKDF expands one stream and truncates it).
pub proof fn lemma_derive_prefix(stream: Seq<u8>, short: Seq<u8>, long: Seq<u8>)
    requires
        takes_prefix(short, stream, short.len()),
        takes_prefix(long, stream, long.len()),
        short.len() <= long.len(),
    ensures
        short == long.take(short.len() as int),
{
    assert(short =~= long.take(short.len() as int));
}

/// The HKDF backend over hash `H`: `Sha256` (showcase) or `Sha384` (CNSA 2.0).
pub struct Hkdf<H>(PhantomData<H>);

impl<H> Hkdf<H> {
    /// Creates the backend.
    pub fn new() -> (r: Self) {
        Hkdf(PhantomData)
    }
}

/// The HKDF-SHA-256 backend, as a value.
pub closed spec fn hkdf_sha256() -> Hkdf<sha2::Sha256> {
    Hkdf(PhantomData)
}

/// The HKDF-SHA-384 backend, as a value.
pub closed spec fn hkdf_sha384() -> Hkdf<sha2::Sha384> {
    Hkdf(PhantomData)
}

impl<H> Default for Hkdf<H> {
    fn default() -> (r: Self) {
        Self::new()
    }
}

/// The HKDF-SHA-256 output stream (RFC 5869) for an optional salt, the input keying
/// material and the info: `T(1) || T(2) || ...`, of which a derivation of `n` bytes
/// takes the first `n`.
pub uninterp spec fn hkdf_sha256_stream(salt: Option<Seq<u8>>, ikm: Seq<u8>, info: Seq<u8>) -> Seq<u8>;

/// The HKDF-SHA-384 output stream (RFC 5869), as for SHA-256.
pub uninterp spec fn hkdf_sha384_stream(salt: Option<Seq<u8>>, ikm: Seq<u8>, info: Seq<u8>) -> Seq<u8>;

/// HKDF-Extract then HKDF-Expand with SHA-256 (`hkdf::Hkdf::<Sha256>::new` then
/// `expand`). The crate's `expand` fails, before writing, exactly when more than
/// 255 * 32 bytes are asked for; otherwise it fills `okm` with the first bytes of the
/// output stream, block by block, so a shorter output is a prefix of a longer one.
#[verifier::external_body]
fn hkdf_sha256_expand(salt: Option<&[u8]>, ikm: &[u8], info: &[u8], okm: &mut [u8]) -> (r: bool)
    ensures
        r == (old(okm)@.len() <= 255 * 32),
        r ==> takes_prefix(
            final(okm)@,
            hkdf_sha256_stream(opt_view(salt), ikm@, info@),
            old(okm)@.len(),
        ),
        !r ==> final(okm)@ == old(okm)@,
{
    hkdf::Hkdf::<sha2::Sha256>::new(salt, ikm).expand(info, okm).is_ok()
}

/// HKDF-Extract then HKDF-Expand with SHA-384 (`hkdf::Hkdf::<Sha384>::new` then
/// `expand`); as for SHA-256, with at most 255 * 48 output bytes.
#[verifier::external_body]
fn hkdf_sha384_expand(salt: Option<&[u8]>, ikm: &[u8], info: &[u8], okm: &mut [u8]) -> (r: bool)
    ensures
        r == (old(okm)@.len() <= 255 * 48),
        r ==> takes_prefix(
            final(okm)@,
            hkdf_sha384_stream(opt_view(salt), ikm@, info@),
            old(okm)@.len(),
        ),
        !r ==> final(okm)@ == old(okm)@,
{
    hkdf::Hkdf::<sha2::Sha384>::new(salt, ikm).expand(info, okm).is_ok()
}

/// The view of an optional byte slice.
pub open spec fn opt_view(s: Option<&[u8]>) -> Option<Seq<u8>> {
    match s {
        Some(b) => Some(b@),
        None => None,
    }
}

/// The salt HKDF is given: none for an empty salt (RFC 5869 then uses hash-length
/// zeros in its place).
pub open spec fn hkdf_salt(salt: Seq<u8>) -> Option<Seq<u8>> {
    if salt.len() == 0 {
        None
    } else {
        Some(salt)
    }
}

fn salt_arg(salt: &[u8]) -> (r: Option<&[u8]>)
    ensures
        opt_view(r) == hkdf_salt(salt@),
{
    if salt.len() == 0 {
        None
    } else {
        Some(salt)
    }
}

impl Kdf for Hkdf<sha2::Sha256> {
    open spec fn output(&self, salt: Seq<u8>, ikm: Seq<u8>, info: Seq<u8>) -> Seq<u8> {
        hkdf_sha256_stream(hkdf_salt(salt), ikm, info)
    }

    open spec fn max_output(&self) -> nat {
        255 * 32
    }

    fn derive(&self, salt: &[u8], ikm: &[u8], info: &[u8], okm: &mut [u8]) -> (r: Result<(), KdfError>) {
        let salt = salt_arg(salt);
        if hkdf_sha256_expand(salt, ikm, info, okm) {
            Ok(())
        } else {
            Err(KdfError::InvalidOutputLength)
        }
    }
}

impl Kdf for Hkdf<sha2::Sha384> {
    open spec fn output(&self, salt: Seq<u8>, ikm: Seq<u8>, info: Seq<u8>) -> Seq<u8> {
        hkdf_sha384_stream(hkdf_salt(salt), ikm, info)
    }

    open spec fn max_output(&self) -> nat {
        255 * 48
    }

    fn derive(&self, salt: &[u8], ikm: &[u8], info: &[u8], okm: &mut [u8]) -> (r: Result<(), KdfError>) {
        let salt = salt_arg(salt);
        if hkdf_sha384_expand(salt, ikm, info, okm) {
            Ok(())
        } else {
            Err(KdfError::InvalidOutputLength)
        }
    }
}

} // verus!
