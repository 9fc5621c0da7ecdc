//! ML-DSA lattice-based signature backend, wrapping the RustCrypto `ml-dsa` crate.
//!
//! Over the parameter set: ML-DSA-65 for the showcase profile, ML-DSA-87 for the CNSA
//! 2.0 profile. The scheme is stateless and signs deterministically; the secret key is
//! kept as its 32-byte seed.
use vstd::prelude::*;
use core::marker::PhantomData;
use ml_dsa::{KeyInit, Keypair};
use ml_dsa::signature::{Signer as _, Verifier as _};
use crate::crypto::bytes::array32_at;
use crate::crypto::error::{SignError, VerifyError};
use crate::crypto::sign::{Signature, Signer, SigningKey, Verifier, VerifyingKey, SIGNATURE_MAX, VERIFYING_KEY_MAX};

verus! {

/// The `ml_dsa::MlDsa65` parameter set, declared so that the ML-DSA backend can be
/// named over it; nothing inside it is visible to proofs.
#[verifier::external_type_specification]
#[verifier::external_body]
pub struct ExMlDsa65(ml_dsa::MlDsa65);

/// The `ml_dsa::MlDsa87` parameter set, declared likewise.
#[verifier::external_type_specification]
#[verifier::external_body]
pub struct ExMlDsa87(ml_dsa::MlDsa87);

/// The ML-DSA backend over parameter set `P`.
pub struct MlDsa<P>(PhantomData<P>);

impl<P> MlDsa<P> {
    /// Creates the backend.
    pub fn new() -> (r: Self) {
        MlDsa(PhantomData)
    }
}

impl<P> Default for MlDsa<P> {
    fn default() -> (r: Self) {
        Self::new()
    }
}

/// The length of an ML-DSA key seed.
pub const SEED_LEN: usize = 32;

/// The key pair an ML-DSA backend derives from `entropy`: the 32-byte seed (the first
/// 32 bytes) as the signing key, and the encoded verifying key for it.
pub open spec fn mldsa_keygen(vk_of_seed: spec_fn(Seq<u8>) -> Seq<u8>, entropy: Seq<u8>) -> Result<(Seq<u8>, Seq<u8>), SignError> {
    if entropy.len() < SEED_LEN {
        Err(SignError::Internal)
    } else if vk_of_seed(entropy.subrange(0, 32)).len() > VERIFYING_KEY_MAX {
        Err(SignError::Internal)
    } else {
        Ok((entropy.subrange(0, 32), vk_of_seed(entropy.subrange(0, 32))))
    }
}

/// What signing gives with the seed `key`: a key that is not a 32-byte seed is
/// malformed.
pub open spec fn mldsa_sign(sign: spec_fn(Seq<u8>, Seq<u8>) -> Option<Seq<u8>>, key: Seq<u8>, message: Seq<u8>) -> Result<Seq<u8>, SignError> {
    if key.len() != SEED_LEN {
        Err(SignError::MalformedKey)
    } else {
        match sign(key, message) {
            Some(s) => if s.len() <= SIGNATURE_MAX {
                Ok(s)
            } else {
                Err(SignError::Internal)
            },
            None => Err(SignError::Internal),
        }
    }
}

/// The encoded ML-DSA-65 verifying key for a 32-byte seed (FIPS 204 key generation).
pub uninterp spec fn mldsa65_verifying_key(seed: Seq<u8>) -> Seq<u8>;

/// The deterministic ML-DSA-65 signature (empty context) by the key of `seed` over
/// `message`, or `None` if signing fails.
pub uninterp spec fn mldsa65_signature(seed: Seq<u8>, message: Seq<u8>) -> Option<Seq<u8>>;

/// The ML-DSA-65 verdict on `signature` over `message` under the encoded key `key`:
/// a key of the wrong length is malformed, so is a signature that does not decode,
/// and a decoded signature that does not verify fails.
pub uninterp spec fn mldsa65_verdict(key: Seq<u8>, message: Seq<u8>, signature: Seq<u8>) -> Result<(), VerifyError>;

/// ML-DSA-65 key generation from a seed (`SigningKey::new`, `Keypair::verifying_key`,
/// `VerifyingKey::encode`).
#[verifier::external_body]
fn mldsa65_keygen_vk(seed: &[u8; 32]) -> (r: Vec<u8>)
    ensures
        r@ == mldsa65_verifying_key(seed@),
{
    let signing_key = ml_dsa::SigningKey::<ml_dsa::MlDsa65>::new(&(*seed).into());
    signing_key.verifying_key().encode().to_vec()
}

/// ML-DSA-65 deterministic signing with the key of a seed (`SigningKey::new`,
/// `Signer::try_sign`, `Signature::encode`).
#[verifier::external_body]
fn mldsa65_sign(seed: &[u8; 32], message: &[u8]) -> (r: Option<Vec<u8>>)
    ensures
        match mldsa65_signature(seed@, message@) {
            Some(s) => r matches Some(v) && v@ == s,
            None => r is None,
        },
{
    let signing_key = ml_dsa::SigningKey::<ml_dsa::MlDsa65>::new(&(*seed).into());
    signing_key.try_sign(message).ok().map(|s| s.encode().to_vec())
}

/// ML-DSA-65 verification (`VerifyingKey::new_from_slice`, `Signature::try_from`,
/// `Verifier::verify`), each failure mapped to its error. ML-DSA is correct: the
/// signature a seed's key makes over a message verifies under that seed's encoded
/// verifying key (FIPS 204).
#[verifier::external_body]
fn mldsa65_verify(key: &[u8], message: &[u8], signature: &[u8]) -> (r: Result<(), VerifyError>)
    ensures
        r == mldsa65_verdict(key@, message@, signature@),
        forall|seed: Seq<u8>|
            #![trigger mldsa65_signature(seed, message@), mldsa65_verifying_key(seed)]
            seed.len() == 32 && mldsa65_signature(seed, message@) == Some(signature@)
                && mldsa65_verifying_key(seed) == key@ ==> r is Ok,
{
    let verifying_key = ml_dsa::VerifyingKey::<ml_dsa::MlDsa65>::new_from_slice(key)
        .map_err(|_| VerifyError::MalformedKey)?;
    let signature = ml_dsa::Signature::<ml_dsa::MlDsa65>::try_from(signature)
        .map_err(|_| VerifyError::MalformedSignature)?;
    verifying_key.verify(message, &signature).map_err(|_| VerifyError::VerificationFailed)
}

impl MlDsa<ml_dsa::MlDsa65> {
    /// Generates a key pair from `entropy`, which must be at least 32 bytes (the ML-DSA
    /// seed length). The secret key is returned as that seed; the public key as its
    /// FIPS 204 encoding.
    pub fn keygen(&self, entropy: &[u8]) -> (r: Result<(SigningKey, VerifyingKey), SignError>)
        ensures
            match mldsa_keygen(|s: Seq<u8>| mldsa65_verifying_key(s), entropy@) {
                Ok((sk, vk)) => r matches Ok((s, v)) && s@ == sk && v@ == vk,
                Err(e) => r == Err::<(SigningKey, VerifyingKey), SignError>(e),
            },
    {
        if entropy.len() < SEED_LEN {
            return Err(SignError::Internal);
        }
        let seed = array32_at(entropy, 0);
        let vk = mldsa65_keygen_vk(&seed);
        let signing_key = match SigningKey::try_from(vstd::slice::slice_subrange(entropy, 0, 32)) {
            Ok(k) => k,
            Err(_) => return Err(SignError::Internal),
        };
        let verifying_key = match VerifyingKey::try_from(vk.as_slice()) {
            Ok(k) => k,
            Err(_) => return Err(SignError::Internal),
        };
        Ok((signing_key, verifying_key))
    }
}

impl Signer for MlDsa<ml_dsa::MlDsa65> {
    open spec fn signature_of(&self, key: Seq<u8>, message: Seq<u8>) -> Result<Seq<u8>, SignError> {
        mldsa_sign(|k: Seq<u8>, m: Seq<u8>| mldsa65_signature(k, m), key, message)
    }

    fn sign(&self, key: &SigningKey, message: &[u8]) -> (r: Result<Signature, SignError>) {
        let k = key.as_slice();
        if k.len() != SEED_LEN {
            return Err(SignError::MalformedKey);
        }
        let seed = array32_at(k, 0);
        proof {
            assert(seed@ =~= key@);
        }
        let signature = match mldsa65_sign(&seed, message) {
            Some(s) => s,
            None => return Err(SignError::Internal),
        };
        match Signature::try_from(signature.as_slice()) {
            Ok(s) => Ok(s),
            Err(_) => Err(SignError::Internal),
        }
    }
}

impl Verifier for MlDsa<ml_dsa::MlDsa65> {
    open spec fn verdict(&self, key: Seq<u8>, message: Seq<u8>, signature: Seq<u8>) -> Result<(), VerifyError> {
        mldsa65_verdict(key, message, signature)
    }

    /// ML-DSA is correct: the signature a seed's key makes over a message verifies under
    /// that seed's verifying key.
    fn verify(&self, key: &VerifyingKey, message: &[u8], signature: &Signature) -> (r: Result<(), VerifyError>)
        ensures
            forall|seed: Seq<u8>|
                #![trigger mldsa65_signature(seed, message@), mldsa65_verifying_key(seed)]
                seed.len() == 32 && mldsa65_signature(seed, message@) == Some(signature@)
                    && mldsa65_verifying_key(seed) == key@ ==> r is Ok,
    {
        mldsa65_verify(key.as_slice(), message, signature.as_slice())
    }
}

/// The encoded ML-DSA-87 verifying key for a 32-byte seed (FIPS 204 key generation).
pub uninterp spec fn mldsa87_verifying_key(seed: Seq<u8>) -> Seq<u8>;

/// The deterministic ML-DSA-87 signature (empty context) by the key of `seed` over
/// `message`, or `None` if signing fails.
pub uninterp spec fn mldsa87_signature(seed: Seq<u8>, message: Seq<u8>) -> Option<Seq<u8>>;

/// The ML-DSA-87 verdict on `signature` over `message` under the encoded key `key`:
/// a key of the wrong length is malformed, so is a signature that does not decode,
/// and a decoded signature that does not verify fails.
pub uninterp spec fn mldsa87_verdict(key: Seq<u8>, message: Seq<u8>, signature: Seq<u8>) -> Result<(), VerifyError>;

/// ML-DSA-87 key generation from a seed (`SigningKey::new`, `Keypair::verifying_key`,
/// `VerifyingKey::encode`).
#[verifier::external_body]
fn mldsa87_keygen_vk(seed: &[u8; 32]) -> (r: Vec<u8>)
    ensures
        r@ == mldsa87_verifying_key(seed@),
{
    let signing_key = ml_dsa::SigningKey::<ml_dsa::MlDsa87>::new(&(*seed).into());
    signing_key.verifying_key().encode().to_vec()
}

/// ML-DSA-87 deterministic signing with the key of a seed (`SigningKey::new`,
/// `Signer::try_sign`, `Signature::encode`).
#[verifier::external_body]
fn mldsa87_sign(seed: &[u8; 32], message: &[u8]) -> (r: Option<Vec<u8>>)
    ensures
        match mldsa87_signature(seed@, message@) {
            Some(s) => r matches Some(v) && v@ == s,
            None => r is None,
        },
{
    let signing_key = ml_dsa::SigningKey::<ml_dsa::MlDsa87>::new(&(*seed).into());
    signing_key.try_sign(message).ok().map(|s| s.encode().to_vec())
}

/// ML-DSA-87 verification (`VerifyingKey::new_from_slice`, `Signature::try_from`,
/// `Verifier::verify`), each failure mapped to its error. ML-DSA is correct: the
/// signature a seed's key makes over a message verifies under that seed's encoded
/// verifying key (FIPS 204).
#[verifier::external_body]
fn mldsa87_verify(key: &[u8], message: &[u8], signature: &[u8]) -> (r: Result<(), VerifyError>)
    ensures
        r == mldsa87_verdict(key@, message@, signature@),
        forall|seed: Seq<u8>|
            #![trigger mldsa87_signature(seed, message@), mldsa87_verifying_key(seed)]
            seed.len() == 32 && mldsa87_signature(seed, message@) == Some(signature@)
                && mldsa87_verifying_key(seed) == key@ ==> r is Ok,
{
    let verifying_key = ml_dsa::VerifyingKey::<ml_dsa::MlDsa87>::new_from_slice(key)
        .map_err(|_| VerifyError::MalformedKey)?;
    let signature = ml_dsa::Signature::<ml_dsa::MlDsa87>::try_from(signature)
        .map_err(|_| VerifyError::MalformedSignature)?;
    verifying_key.verify(message, &signature).map_err(|_| VerifyError::VerificationFailed)
}

impl MlDsa<ml_dsa::MlDsa87> {
    /// Generates a key pair from `entropy`, which must be at least 32 bytes (the ML-DSA
    /// seed length). The secret key is returned as that seed; the public key as its
    /// FIPS 204 encoding.
    pub fn keygen(&self, entropy: &[u8]) -> (r: Result<(SigningKey, VerifyingKey), SignError>)
        ensures
            match mldsa_keygen(|s: Seq<u8>| mldsa87_verifying_key(s), entropy@) {
                Ok((sk, vk)) => r matches Ok((s, v)) && s@ == sk && v@ == vk,
                Err(e) => r == Err::<(SigningKey, VerifyingKey), SignError>(e),
            },
    {
        if entropy.len() < SEED_LEN {
            return Err(SignError::Internal);
        }
        let seed = array32_at(entropy, 0);
        let vk = mldsa87_keygen_vk(&seed);
        let signing_key = match SigningKey::try_from(vstd::slice::slice_subrange(entropy, 0, 32)) {
            Ok(k) => k,
            Err(_) => return Err(SignError::Internal),
        };
        let verifying_key = match VerifyingKey::try_from(vk.as_slice()) {
            Ok(k) => k,
            Err(_) => return Err(SignError::Internal),
        };
        Ok((signing_key, verifying_key))
    }
}

impl Signer for MlDsa<ml_dsa::MlDsa87> {
    open spec fn signature_of(&self, key: Seq<u8>, message: Seq<u8>) -> Result<Seq<u8>, SignError> {
        mldsa_sign(|k: Seq<u8>, m: Seq<u8>| mldsa87_signature(k, m), key, message)
    }

    fn sign(&self, key: &SigningKey, message: &[u8]) -> (r: Result<Signature, SignError>) {
        let k = key.as_slice();
        if k.len() != SEED_LEN {
            return Err(SignError::MalformedKey);
        }
        let seed = array32_at(k, 0);
        proof {
            assert(seed@ =~= key@);
        }
        let signature = match mldsa87_sign(&seed, message) {
            Some(s) => s,
            None => return Err(SignError::Internal),
        };
        match Signature::try_from(signature.as_slice()) {
            Ok(s) => Ok(s),
            Err(_) => Err(SignError::Internal),
        }
    }
}

impl Verifier for MlDsa<ml_dsa::MlDsa87> {
    open spec fn verdict(&self, key: Seq<u8>, message: Seq<u8>, signature: Seq<u8>) -> Result<(), VerifyError> {
        mldsa87_verdict(key, message, signature)
    }

    /// ML-DSA is correct: the signature a seed's key makes over a message verifies under
    /// that seed's verifying key.
    fn verify(&self, key: &VerifyingKey, message: &[u8], signature: &Signature) -> (r: Result<(), VerifyError>)
        ensures
            forall|seed: Seq<u8>|
                #![trigger mldsa87_signature(seed, message@), mldsa87_verifying_key(seed)]
                seed.len() == 32 && mldsa87_signature(seed, message@) == Some(signature@)
                    && mldsa87_verifying_key(seed) == key@ ==> r is Ok,
    {
        mldsa87_verify(key.as_slice(), message, signature.as_slice())
    }
}

} // verus!
