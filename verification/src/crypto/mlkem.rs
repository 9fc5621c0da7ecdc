//! ML-KEM lattice key-encapsulation backend, wrapping the RustCrypto `ml-kem` crate.
//!
//! Specialized to a parameter set: ML-KEM-768 for the showcase profile, ML-KEM-1024 for
//! the CNSA 2.0 profile. The decapsulation key is stored as its 64-byte seed `d || z`;
//! decapsulation re-derives the key pair from the seed and uses FIPS 203 implicit
//! rejection.
use vstd::prelude::*;
use core::marker::PhantomData;
use ml_kem::{EncodedSizeUser, KemCore};
use ml_kem::kem::Decapsulate;
use ml_kem::EncapsulateDeterministic;
use crate::crypto::bytes::{array32_at};
use crate::crypto::error::KemError;
use crate::crypto::kem::{
    Ciphertext, DecapsulationKey, EncapsulationKey, Kem, SharedSecret, CIPHERTEXT_MAX,
    ENCAPSULATION_KEY_MAX, SHARED_SECRET_MAX,
};

verus! {

/// The ML-KEM-768 parameter set.
pub struct MlKem768;

/// The ML-KEM-1024 parameter set.
pub struct MlKem1024;

/// The ML-KEM backend over parameter set `P`.
pub struct MlKem<P>(PhantomData<P>);

impl<P> MlKem<P> {
    /// Creates the backend.
    pub fn new() -> (r: Self) {
        MlKem(PhantomData)
    }
}

impl<P> Default for MlKem<P> {
    fn default() -> (r: Self) {
        Self::new()
    }
}

/// The length of an ML-KEM key seed `d || z`.
pub const SEED_LEN: usize = 64;
/// The length of the encapsulation randomness `m`.
pub const ENCAPS_ENTROPY_LEN: usize = 32;

/// The key pair an ML-KEM backend derives from `entropy`: the encoded encapsulation key
/// for the seed `d || z` (the first 64 bytes), and that seed as the decapsulation key.
pub open spec fn mlkem_keygen(ek_of_seed: spec_fn(Seq<u8>, Seq<u8>) -> Seq<u8>, entropy: Seq<u8>) -> Result<
    (Seq<u8>, Seq<u8>),
    KemError,
> {
    if entropy.len() < SEED_LEN {
        Err(KemError::Internal)
    } else {
        let ek = ek_of_seed(entropy.subrange(0, 32), entropy.subrange(32, 64));
        if ek.len() <= ENCAPSULATION_KEY_MAX {
            Ok((ek, entropy.subrange(0, 64)))
        } else {
            Err(KemError::Internal)
        }
    }
}

/// What encapsulating to `key` gives, where `encaps` is the parameter set's
/// deterministic encapsulation (`None` for a key of the wrong length) and `m` the
/// first 32 bytes of `entropy`.
pub open spec fn mlkem_encaps(
    encaps: spec_fn(Seq<u8>, Seq<u8>) -> Option<(Seq<u8>, Seq<u8>)>,
    key: Seq<u8>,
    entropy: Seq<u8>,
) -> Result<(Seq<u8>, Seq<u8>), KemError> {
    if entropy.len() < ENCAPS_ENTROPY_LEN {
        Err(KemError::Internal)
    } else {
        match encaps(key, entropy.subrange(0, 32)) {
            None => Err(KemError::MalformedKey),
            Some((ct, ss)) => if ct.len() <= CIPHERTEXT_MAX && ss.len() <= SHARED_SECRET_MAX {
                Ok((ct, ss))
            } else {
                Err(KemError::Internal)
            },
        }
    }
}

/// What decapsulating `ciphertext` with the seed `key` gives, where `decaps` is the
/// parameter set's decapsulation from the seed halves (`None` for a ciphertext of the
/// wrong length).
pub open spec fn mlkem_decaps(
    decaps: spec_fn(Seq<u8>, Seq<u8>, Seq<u8>) -> Option<Seq<u8>>,
    key: Seq<u8>,
    ciphertext: Seq<u8>,
) -> Result<Seq<u8>, KemError> {
    if key.len() != SEED_LEN {
        Err(KemError::MalformedKey)
    } else {
        match decaps(key.subrange(0, 32), key.subrange(32, 64), ciphertext) {
            None => Err(KemError::MalformedCiphertext),
            Some(ss) => if ss.len() <= SHARED_SECRET_MAX {
                Ok(ss)
            } else {
                Err(KemError::Internal)
            },
        }
    }
}

/// The encoded ML-KEM-768 encapsulation key of the key pair that FIPS 203
/// `KeyGen_internal(d, z)` derives.
pub uninterp spec fn mlkem768_encapsulation_key(d: Seq<u8>, z: Seq<u8>) -> Seq<u8>;

/// ML-KEM-768 `Encaps_internal(ek, m)`: the ciphertext and shared secret, or `None`
/// when `ek` is not the length of an encoded key.
pub uninterp spec fn mlkem768_encapsulate(ek: Seq<u8>, m: Seq<u8>) -> Option<(Seq<u8>, Seq<u8>)>;

/// ML-KEM-768 decapsulation of `ct` under the key pair derived from `d` and `z`, or
/// `None` when `ct` is not the length of a ciphertext.
pub uninterp spec fn mlkem768_decapsulate(d: Seq<u8>, z: Seq<u8>, ct: Seq<u8>) -> Option<Seq<u8>>;

/// ML-KEM-768 key generation from the seed halves
/// (`ml_kem::MlKem768::generate_deterministic`), returning the encoded encapsulation
/// key (`EncodedSizeUser::as_bytes`).
#[verifier::external_body]
fn mlkem768_keygen_ek(d: &[u8; 32], z: &[u8; 32]) -> (r: Vec<u8>)
    ensures
        r@ == mlkem768_encapsulation_key(d@, z@),
{
    let (_dk, ek) = ml_kem::MlKem768::generate_deterministic(&(*d).into(), &(*z).into());
    ek.as_bytes().to_vec()
}

/// ML-KEM-768 encapsulation with caller randomness `m`
/// (`EncodedSizeUser::from_bytes` on the key, then `encapsulate_deterministic`); the
/// key bytes convert only at the encoded key's length.
#[verifier::external_body]
fn mlkem768_encaps(ek: &[u8], m: &[u8; 32]) -> (r: Option<(Vec<u8>, Vec<u8>)>)
    ensures
        match mlkem768_encapsulate(ek@, m@) {
            Some((ct, ss)) => r matches Some((c, s)) && c@ == ct && s@ == ss,
            None => r is None,
        },
{
    let encoded = ml_kem::array::Array::try_from(ek).ok()?;
    let key = <ml_kem::MlKem768 as KemCore>::EncapsulationKey::from_bytes(&encoded);
    let (ct, ss) = key.encapsulate_deterministic(&(*m).into()).ok()?;
    Some((ct.to_vec(), ss.to_vec()))
}

/// ML-KEM-768 decapsulation under the key pair re-derived from the seed halves
/// (`generate_deterministic`, then `Decapsulate::decapsulate`); the ciphertext bytes
/// convert only at the ciphertext's length. That decapsulating what encapsulation to
/// the matching key produced gives back its secret is left unsaid: ML-KEM guarantees
/// it only except with a negligible probability, not for every seed and randomness.
#[verifier::external_body]
fn mlkem768_decaps(d: &[u8; 32], z: &[u8; 32], ct: &[u8]) -> (r: Option<Vec<u8>>)
    ensures
        match mlkem768_decapsulate(d@, z@, ct@) {
            Some(ss) => r matches Some(s) && s@ == ss,
            None => r is None,
        },
{
    let (dk, _ek) = ml_kem::MlKem768::generate_deterministic(&(*d).into(), &(*z).into());
    let encoded = ml_kem::array::Array::try_from(ct).ok()?;
    dk.decapsulate(&encoded).ok().map(|ss| ss.to_vec())
}

impl MlKem<MlKem768> {
    /// Generates a key pair from `entropy`, which must be at least 64 bytes (the ML-KEM
    /// seed length). The secret key is returned as that 64-byte seed; the public key
    /// as its FIPS 203 encoding.
    pub fn keygen(&self, entropy: &[u8]) -> (r: Result<(EncapsulationKey, DecapsulationKey), KemError>)
        ensures
            match mlkem_keygen(|d: Seq<u8>, z: Seq<u8>| mlkem768_encapsulation_key(d, z), entropy@) {
                Ok((ek, dk)) => r matches Ok((e, k)) && e@ == ek && k@ == dk,
                Err(e) => r == Err::<(EncapsulationKey, DecapsulationKey), KemError>(e),
            },
            r matches Ok((e, k)) ==> entropy@.len() >= SEED_LEN && e@ == mlkem768_encapsulation_key(
                entropy@.subrange(0, 32),
                entropy@.subrange(32, 64),
            ) && k@ == entropy@.subrange(0, SEED_LEN as int),
            entropy@.len() >= SEED_LEN && mlkem768_encapsulation_key(
                entropy@.subrange(0, 32),
                entropy@.subrange(32, 64),
            ).len() <= ENCAPSULATION_KEY_MAX ==> r is Ok,
    {
        if entropy.len() < SEED_LEN {
            return Err(KemError::Internal);
        }
        let d = array32_at(entropy, 0);
        let z = array32_at(entropy, 32);
        let ek_bytes = mlkem768_keygen_ek(&d, &z);
        let ek = match EncapsulationKey::try_from(ek_bytes.as_slice()) {
            Ok(k) => k,
            Err(_) => return Err(KemError::Internal),
        };
        let mut seed: Vec<u8> = Vec::new();
        let mut i: usize = 0;
        while i < SEED_LEN
            invariant
                i <= SEED_LEN <= entropy@.len(),
                seed@ == entropy@.subrange(0, i as int),
            decreases SEED_LEN - i,
        {
            seed.push(entropy[i]);
            i = i + 1;
        }
        let dk = match DecapsulationKey::try_from(seed.as_slice()) {
            Ok(k) => k,
            Err(_) => return Err(KemError::Internal),
        };
        Ok((ek, dk))
    }
}

impl Kem for MlKem<MlKem768> {
    open spec fn encaps(&self, key: Seq<u8>, entropy: Seq<u8>) -> Result<(Seq<u8>, Seq<u8>), KemError> {
        mlkem_encaps(|ek: Seq<u8>, m: Seq<u8>| mlkem768_encapsulate(ek, m), key, entropy)
    }

    open spec fn decaps(&self, key: Seq<u8>, ciphertext: Seq<u8>) -> Result<Seq<u8>, KemError> {
        mlkem_decaps(|d: Seq<u8>, z: Seq<u8>, ct: Seq<u8>| mlkem768_decapsulate(d, z, ct), key, ciphertext)
    }

    fn encapsulate(&self, key: &EncapsulationKey, entropy: &[u8]) -> (r: Result<
        (Ciphertext, SharedSecret),
        KemError,
    >) {
        if entropy.len() < ENCAPS_ENTROPY_LEN {
            return Err(KemError::Internal);
        }
        let m = array32_at(entropy, 0);
        let (ct, ss) = match mlkem768_encaps(key.as_slice(), &m) {
            Some(x) => x,
            None => return Err(KemError::MalformedKey),
        };
        let ciphertext = match Ciphertext::try_from(ct.as_slice()) {
            Ok(c) => c,
            Err(_) => return Err(KemError::Internal),
        };
        let shared = match SharedSecret::try_from(ss.as_slice()) {
            Ok(s) => s,
            Err(_) => return Err(KemError::Internal),
        };
        Ok((ciphertext, shared))
    }

    fn decapsulate(&self, key: &DecapsulationKey, ciphertext: &Ciphertext) -> (r: Result<
        SharedSecret,
        KemError,
    >)
        ensures
            r matches Ok(s) ==> key@.len() == SEED_LEN && mlkem768_decapsulate(
                key@.subrange(0, 32),
                key@.subrange(32, 64),
                ciphertext@,
            ) == Some(s@),
            key@.len() == SEED_LEN ==> match mlkem768_decapsulate(
                key@.subrange(0, 32),
                key@.subrange(32, 64),
                ciphertext@,
            ) {
                Some(ss) => ss.len() <= SHARED_SECRET_MAX ==> (r matches Ok(s) && s@ == ss),
                None => r == Err::<SharedSecret, KemError>(KemError::MalformedCiphertext),
            },
    {
        let seed = key.as_slice();
        if seed.len() != SEED_LEN {
            return Err(KemError::MalformedKey);
        }
        let d = array32_at(seed, 0);
        let z = array32_at(seed, 32);
        let ss = match mlkem768_decaps(&d, &z, ciphertext.as_slice()) {
            Some(s) => s,
            None => return Err(KemError::MalformedCiphertext),
        };
        match SharedSecret::try_from(ss.as_slice()) {
            Ok(s) => Ok(s),
            Err(_) => Err(KemError::Internal),
        }
    }
}

/// The encoded ML-KEM-1024 encapsulation key of the key pair that FIPS 203
/// `KeyGen_internal(d, z)` derives.
pub uninterp spec fn mlkem1024_encapsulation_key(d: Seq<u8>, z: Seq<u8>) -> Seq<u8>;

/// ML-KEM-1024 `Encaps_internal(ek, m)`: the ciphertext and shared secret, or `None`
/// when `ek` is not the length of an encoded key.
pub uninterp spec fn mlkem1024_encapsulate(ek: Seq<u8>, m: Seq<u8>) -> Option<(Seq<u8>, Seq<u8>)>;

/// ML-KEM-1024 decapsulation of `ct` under the key pair derived from `d` and `z`, or
/// `None` when `ct` is not the length of a ciphertext.
pub uninterp spec fn mlkem1024_decapsulate(d: Seq<u8>, z: Seq<u8>, ct: Seq<u8>) -> Option<Seq<u8>>;

/// ML-KEM-1024 key generation from the seed halves
/// (`ml_kem::MlKem1024::generate_deterministic`), returning the encoded encapsulation
/// key (`EncodedSizeUser::as_bytes`).
#[verifier::external_body]
fn mlkem1024_keygen_ek(d: &[u8; 32], z: &[u8; 32]) -> (r: Vec<u8>)
    ensures
        r@ == mlkem1024_encapsulation_key(d@, z@),
{
    let (_dk, ek) = ml_kem::MlKem1024::generate_deterministic(&(*d).into(), &(*z).into());
    ek.as_bytes().to_vec()
}

/// ML-KEM-1024 encapsulation with caller randomness `m`
/// (`EncodedSizeUser::from_bytes` on the key, then `encapsulate_deterministic`); the
/// key bytes convert only at the encoded key's length.
#[verifier::external_body]
fn mlkem1024_encaps(ek: &[u8], m: &[u8; 32]) -> (r: Option<(Vec<u8>, Vec<u8>)>)
    ensures
        match mlkem1024_encapsulate(ek@, m@) {
            Some((ct, ss)) => r matches Some((c, s)) && c@ == ct && s@ == ss,
            None => r is None,
        },
{
    let encoded = ml_kem::array::Array::try_from(ek).ok()?;
    let key = <ml_kem::MlKem1024 as KemCore>::EncapsulationKey::from_bytes(&encoded);
    let (ct, ss) = key.encapsulate_deterministic(&(*m).into()).ok()?;
    Some((ct.to_vec(), ss.to_vec()))
}

/// ML-KEM-1024 decapsulation under the key pair re-derived from the seed halves
/// (`generate_deterministic`, then `Decapsulate::decapsulate`); the ciphertext bytes
/// convert only at the ciphertext's length. That decapsulating what encapsulation to
/// the matching key produced gives back its secret is left unsaid: ML-KEM guarantees
/// it only except with a negligible probability, not for every seed and randomness.
#[verifier::external_body]
fn mlkem1024_decaps(d: &[u8; 32], z: &[u8; 32], ct: &[u8]) -> (r: Option<Vec<u8>>)
    ensures
        match mlkem1024_decapsulate(d@, z@, ct@) {
            Some(ss) => r matches Some(s) && s@ == ss,
            None => r is None,
        },
{
    let (dk, _ek) = ml_kem::MlKem1024::generate_deterministic(&(*d).into(), &(*z).into());
    let encoded = ml_kem::array::Array::try_from(ct).ok()?;
    dk.decapsulate(&encoded).ok().map(|ss| ss.to_vec())
}

impl MlKem<MlKem1024> {
    /// Generates a key pair from `entropy`, which must be at least 64 bytes (the ML-KEM
    /// seed length). The secret key is returned as that 64-byte seed; the public key
    /// as its FIPS 203 encoding.
    pub fn keygen(&self, entropy: &[u8]) -> (r: Result<(EncapsulationKey, DecapsulationKey), KemError>)
        ensures
            match mlkem_keygen(|d: Seq<u8>, z: Seq<u8>| mlkem1024_encapsulation_key(d, z), entropy@) {
                Ok((ek, dk)) => r matches Ok((e, k)) && e@ == ek && k@ == dk,
                Err(e) => r == Err::<(EncapsulationKey, DecapsulationKey), KemError>(e),
            },
            r matches Ok((e, k)) ==> entropy@.len() >= SEED_LEN && e@ == mlkem1024_encapsulation_key(
                entropy@.subrange(0, 32),
                entropy@.subrange(32, 64),
            ) && k@ == entropy@.subrange(0, SEED_LEN as int),
            entropy@.len() >= SEED_LEN && mlkem1024_encapsulation_key(
                entropy@.subrange(0, 32),
                entropy@.subrange(32, 64),
            ).len() <= ENCAPSULATION_KEY_MAX ==> r is Ok,
    {
        if entropy.len() < SEED_LEN {
            return Err(KemError::Internal);
        }
        let d = array32_at(entropy, 0);
        let z = array32_at(entropy, 32);
        let ek_bytes = mlkem1024_keygen_ek(&d, &z);
        let ek = match EncapsulationKey::try_from(ek_bytes.as_slice()) {
            Ok(k) => k,
            Err(_) => return Err(KemError::Internal),
        };
        let mut seed: Vec<u8> = Vec::new();
        let mut i: usize = 0;
        while i < SEED_LEN
            invariant
                i <= SEED_LEN <= entropy@.len(),
                seed@ == entropy@.subrange(0, i as int),
            decreases SEED_LEN - i,
        {
            seed.push(entropy[i]);
            i = i + 1;
        }
        let dk = match DecapsulationKey::try_from(seed.as_slice()) {
            Ok(k) => k,
            Err(_) => return Err(KemError::Internal),
        };
        Ok((ek, dk))
    }
}

impl Kem for MlKem<MlKem1024> {
    open spec fn encaps(&self, key: Seq<u8>, entropy: Seq<u8>) -> Result<(Seq<u8>, Seq<u8>), KemError> {
        mlkem_encaps(|ek: Seq<u8>, m: Seq<u8>| mlkem1024_encapsulate(ek, m), key, entropy)
    }

    open spec fn decaps(&self, key: Seq<u8>, ciphertext: Seq<u8>) -> Result<Seq<u8>, KemError> {
        mlkem_decaps(|d: Seq<u8>, z: Seq<u8>, ct: Seq<u8>| mlkem1024_decapsulate(d, z, ct), key, ciphertext)
    }

    fn encapsulate(&self, key: &EncapsulationKey, entropy: &[u8]) -> (r: Result<
        (Ciphertext, SharedSecret),
        KemError,
    >) {
        if entropy.len() < ENCAPS_ENTROPY_LEN {
            return Err(KemError::Internal);
        }
        let m = array32_at(entropy, 0);
        let (ct, ss) = match mlkem1024_encaps(key.as_slice(), &m) {
            Some(x) => x,
            None => return Err(KemError::MalformedKey),
        };
        let ciphertext = match Ciphertext::try_from(ct.as_slice()) {
            Ok(c) => c,
            Err(_) => return Err(KemError::Internal),
        };
        let shared = match SharedSecret::try_from(ss.as_slice()) {
            Ok(s) => s,
            Err(_) => return Err(KemError::Internal),
        };
        Ok((ciphertext, shared))
    }

    fn decapsulate(&self, key: &DecapsulationKey, ciphertext: &Ciphertext) -> (r: Result<
        SharedSecret,
        KemError,
    >)
        ensures
            r matches Ok(s) ==> key@.len() == SEED_LEN && mlkem1024_decapsulate(
                key@.subrange(0, 32),
                key@.subrange(32, 64),
                ciphertext@,
            ) == Some(s@),
            key@.len() == SEED_LEN ==> match mlkem1024_decapsulate(
                key@.subrange(0, 32),
                key@.subrange(32, 64),
                ciphertext@,
            ) {
                Some(ss) => ss.len() <= SHARED_SECRET_MAX ==> (r matches Ok(s) && s@ == ss),
                None => r == Err::<SharedSecret, KemError>(KemError::MalformedCiphertext),
            },
    {
        let seed = key.as_slice();
        if seed.len() != SEED_LEN {
            return Err(KemError::MalformedKey);
        }
        let d = array32_at(seed, 0);
        let z = array32_at(seed, 32);
        let ss = match mlkem1024_decaps(&d, &z, ciphertext.as_slice()) {
            Some(s) => s,
            None => return Err(KemError::MalformedCiphertext),
        };
        match SharedSecret::try_from(ss.as_slice()) {
            Ok(s) => Ok(s),
            Err(_) => Err(KemError::Internal),
        }
    }
}

/// ML-KEM-768 key generation splits its seed as FIPS 203 does: for every `entropy` of
/// at least 64 bytes, the encapsulation key is that of `KeyGen_internal(d, z)` with `d`
/// the first 32 bytes and `z` the next 32, and the decapsulation key is `d || z`.
pub proof fn lemma_mlkem768_keygen_seed(entropy: Seq<u8>)
    requires
        entropy.len() >= SEED_LEN,
    ensures
        mlkem_keygen(|d: Seq<u8>, z: Seq<u8>| mlkem768_encapsulation_key(d, z), entropy) == if mlkem768_encapsulation_key(
            entropy.subrange(0, 32),
            entropy.subrange(32, 64),
        ).len() <= ENCAPSULATION_KEY_MAX {
            Ok::<(Seq<u8>, Seq<u8>), KemError>(
                (
                    mlkem768_encapsulation_key(entropy.subrange(0, 32), entropy.subrange(32, 64)),
                    entropy.subrange(0, 64),
                ),
            )
        } else {
            Err::<(Seq<u8>, Seq<u8>), KemError>(KemError::Internal)
        },
{
}

/// ML-KEM-768 decapsulation with a 64-byte seed `d || z` is FIPS 203 decapsulation under
/// the key pair `KeyGen_internal(d, z)`, `d` being the first half of the seed: it gives
/// that decapsulation's secret, and a malformed-ciphertext error where it has none.
pub proof fn lemma_mlkem768_decaps_seed(kem: MlKem<MlKem768>, key: Seq<u8>, ciphertext: Seq<u8>)
    requires
        key.len() == SEED_LEN,
    ensures
        match mlkem768_decapsulate(key.subrange(0, 32), key.subrange(32, 64), ciphertext) {
            Some(ss) => ss.len() <= SHARED_SECRET_MAX ==> kem.decaps(key, ciphertext) == Ok::<
                Seq<u8>,
                KemError,
            >(ss),
            None => kem.decaps(key, ciphertext) == Err::<Seq<u8>, KemError>(KemError::MalformedCiphertext),
        },
{
}

/// The two halves of an ML-KEM-768 key pair come from one seed: the decapsulation key
/// that key generation returns for `entropy` decapsulates under `KeyGen_internal(d, z)`,
/// the very pair whose encapsulation key it returned, with `d` and `z` the first two
/// 32-byte blocks of `entropy`.
pub proof fn lemma_mlkem768_keypair_one_seed(kem: MlKem<MlKem768>, entropy: Seq<u8>, ciphertext: Seq<u8>)
    ensures
        mlkem_keygen(|d: Seq<u8>, z: Seq<u8>| mlkem768_encapsulation_key(d, z), entropy) matches Ok((ek, dk))
            ==> ek == mlkem768_encapsulation_key(entropy.subrange(0, 32), entropy.subrange(32, 64))
            && (match mlkem768_decapsulate(entropy.subrange(0, 32), entropy.subrange(32, 64), ciphertext) {
            Some(ss) => ss.len() <= SHARED_SECRET_MAX ==> kem.decaps(dk, ciphertext) == Ok::<
                Seq<u8>,
                KemError,
            >(ss),
            None => kem.decaps(dk, ciphertext) == Err::<Seq<u8>, KemError>(KemError::MalformedCiphertext),
        }),
{
    if entropy.len() >= SEED_LEN {
        let dk = entropy.subrange(0, 64);
        assert(dk.subrange(0, 32) =~= entropy.subrange(0, 32));
        assert(dk.subrange(32, 64) =~= entropy.subrange(32, 64));
    }
}

/// ML-KEM-1024 key generation splits its seed as FIPS 203 does: for every `entropy` of
/// at least 64 bytes, the encapsulation key is that of `KeyGen_internal(d, z)` with `d`
/// the first 32 bytes and `z` the next 32, and the decapsulation key is `d || z`.
pub proof fn lemma_mlkem1024_keygen_seed(entropy: Seq<u8>)
    requires
        entropy.len() >= SEED_LEN,
    ensures
        mlkem_keygen(|d: Seq<u8>, z: Seq<u8>| mlkem1024_encapsulation_key(d, z), entropy) == if mlkem1024_encapsulation_key(
            entropy.subrange(0, 32),
            entropy.subrange(32, 64),
        ).len() <= ENCAPSULATION_KEY_MAX {
            Ok::<(Seq<u8>, Seq<u8>), KemError>(
                (
                    mlkem1024_encapsulation_key(entropy.subrange(0, 32), entropy.subrange(32, 64)),
                    entropy.subrange(0, 64),
                ),
            )
        } else {
            Err::<(Seq<u8>, Seq<u8>), KemError>(KemError::Internal)
        },
{
}

/// ML-KEM-1024 decapsulation with a 64-byte seed `d || z` is FIPS 203 decapsulation under
/// the key pair `KeyGen_internal(d, z)`, `d` being the first half of the seed: it gives
/// that decapsulation's secret, and a malformed-ciphertext error where it has none.
pub proof fn lemma_mlkem1024_decaps_seed(kem: MlKem<MlKem1024>, key: Seq<u8>, ciphertext: Seq<u8>)
    requires
        key.len() == SEED_LEN,
    ensures
        match mlkem1024_decapsulate(key.subrange(0, 32), key.subrange(32, 64), ciphertext) {
            Some(ss) => ss.len() <= SHARED_SECRET_MAX ==> kem.decaps(key, ciphertext) == Ok::<
                Seq<u8>,
                KemError,
            >(ss),
            None => kem.decaps(key, ciphertext) == Err::<Seq<u8>, KemError>(KemError::MalformedCiphertext),
        },
{
}

/// The two halves of an ML-KEM-1024 key pair come from one seed: the decapsulation key
/// that key generation returns for `entropy` decapsulates under `KeyGen_internal(d, z)`,
/// the very pair whose encapsulation key it returned, with `d` and `z` the first two
/// 32-byte blocks of `entropy`.
pub proof fn lemma_mlkem1024_keypair_one_seed(kem: MlKem<MlKem1024>, entropy: Seq<u8>, ciphertext: Seq<u8>)
    ensures
        mlkem_keygen(|d: Seq<u8>, z: Seq<u8>| mlkem1024_encapsulation_key(d, z), entropy) matches Ok((ek, dk))
            ==> ek == mlkem1024_encapsulation_key(entropy.subrange(0, 32), entropy.subrange(32, 64))
            && (match mlkem1024_decapsulate(entropy.subrange(0, 32), entropy.subrange(32, 64), ciphertext) {
            Some(ss) => ss.len() <= SHARED_SECRET_MAX ==> kem.decaps(dk, ciphertext) == Ok::<
                Seq<u8>,
                KemError,
            >(ss),
            None => kem.decaps(dk, ciphertext) == Err::<Seq<u8>, KemError>(KemError::MalformedCiphertext),
        }),
{
    if entropy.len() >= SEED_LEN {
        let dk = entropy.subrange(0, 64);
        assert(dk.subrange(0, 32) =~= entropy.subrange(0, 32));
        assert(dk.subrange(32, 64) =~= entropy.subrange(32, 64));
    }
}

/// ML-KEM-768 encapsulation is FIPS 203 `Encaps_internal(ek, m)` with `m` the first 32
/// bytes of the entropy: it gives that ciphertext and secret, and a malformed-key error
/// where the key is not an encoded ML-KEM-768 key.
pub proof fn lemma_mlkem768_encaps_randomness(kem: MlKem<MlKem768>, key: Seq<u8>, entropy: Seq<u8>)
    requires
        entropy.len() >= ENCAPS_ENTROPY_LEN,
    ensures
        match mlkem768_encapsulate(key, entropy.subrange(0, 32)) {
            Some((ct, ss)) => ct.len() <= CIPHERTEXT_MAX && ss.len() <= SHARED_SECRET_MAX ==> kem.encaps(
                key,
                entropy,
            ) == Ok::<(Seq<u8>, Seq<u8>), KemError>((ct, ss)),
            None => kem.encaps(key, entropy) == Err::<(Seq<u8>, Seq<u8>), KemError>(KemError::MalformedKey),
        },
{
}

/// ML-KEM-1024 encapsulation is FIPS 203 `Encaps_internal(ek, m)` with `m` the first 32
/// bytes of the entropy: it gives that ciphertext and secret, and a malformed-key error
/// where the key is not an encoded ML-KEM-1024 key.
pub proof fn lemma_mlkem1024_encaps_randomness(kem: MlKem<MlKem1024>, key: Seq<u8>, entropy: Seq<u8>)
    requires
        entropy.len() >= ENCAPS_ENTROPY_LEN,
    ensures
        match mlkem1024_encapsulate(key, entropy.subrange(0, 32)) {
            Some((ct, ss)) => ct.len() <= CIPHERTEXT_MAX && ss.len() <= SHARED_SECRET_MAX ==> kem.encaps(
                key,
                entropy,
            ) == Ok::<(Seq<u8>, Seq<u8>), KemError>((ct, ss)),
            None => kem.encaps(key, entropy) == Err::<(Seq<u8>, Seq<u8>), KemError>(KemError::MalformedKey),
        },
{
}

} // verus!
