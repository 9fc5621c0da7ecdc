//! Hybrid KEM: X25519 + ML-KEM, combined into one shared secret.
//!
//! The hybrid runs both component key exchanges and binds their two shared secrets into
//! one, so the result stays secure if either X25519 or ML-KEM is broken. The binding is
//! a dual-PRF HKDF combiner: the X25519 secret is the HKDF salt, the ML-KEM secret the
//! input keying material, and the label followed by the full hybrid ciphertext is the
//! `info`, tying the combined secret to this exact exchange.
use vstd::prelude::*;
use crate::crypto::bytes::{array32_at, vec_len, wipe, wipe32};
use crate::crypto::error::KemError;
use crate::crypto::kdf::{hkdf_salt, hkdf_sha256_stream, hkdf_sha384_stream, takes_prefix, Hkdf, Kdf};
use crate::crypto::kem::{
    Ciphertext, DecapsulationKey, EncapsulationKey, FromBytes, Kem, SharedSecret, CIPHERTEXT_MAX,
    SHARED_SECRET_MAX,
};
use crate::crypto::mlkem::{
    mlkem1024_decapsulate, mlkem1024_encapsulate, mlkem1024_encapsulation_key,
    mlkem768_decapsulate, mlkem768_encapsulate, mlkem768_encapsulation_key, mlkem_decaps,
    mlkem_encaps, mlkem_keygen, MlKem, MlKem1024, MlKem768,
};
use crate::crypto::x25519::{dh, keypair_from_entropy, x25519_public, x25519_shared};

verus! {

/// Domain-separation label of the ML-KEM-768 hybrid: `hybrid-x25519-mlkem768-v1`.
pub open spec fn label_768_spec() -> Seq<u8> {
    seq![0x68, 0x79, 0x62, 0x72, 0x69, 0x64, 0x2d, 0x78, 0x32, 0x35, 0x35, 0x31, 0x39, 0x2d, 0x6d, 0x6c, 0x6b, 0x65, 0x6d, 0x37, 0x36, 0x38, 0x2d, 0x76, 0x31]
}

/// Domain-separation label of the ML-KEM-1024 hybrid: `hybrid-x25519-mlkem1024-v1`.
pub open spec fn label_1024_spec() -> Seq<u8> {
    seq![0x68, 0x79, 0x62, 0x72, 0x69, 0x64, 0x2d, 0x78, 0x32, 0x35, 0x35, 0x31, 0x39, 0x2d, 0x6d, 0x6c, 0x6b, 0x65, 0x6d, 0x31, 0x30, 0x32, 0x34, 0x2d, 0x76, 0x31]
}

/// The ML-KEM-768 hybrid's label.
pub fn label_768() -> (r: [u8; 25])
    ensures
        r@ == label_768_spec(),
{
    let r = [0x68, 0x79, 0x62, 0x72, 0x69, 0x64, 0x2d, 0x78, 0x32, 0x35, 0x35, 0x31, 0x39, 0x2d, 0x6d, 0x6c, 0x6b, 0x65, 0x6d, 0x37, 0x36, 0x38, 0x2d, 0x76, 0x31];
    assert(r@ =~= label_768_spec());
    r
}

/// The ML-KEM-1024 hybrid's label.
pub fn label_1024() -> (r: [u8; 26])
    ensures
        r@ == label_1024_spec(),
{
    let r = [0x68, 0x79, 0x62, 0x72, 0x69, 0x64, 0x2d, 0x78, 0x32, 0x35, 0x35, 0x31, 0x39, 0x2d, 0x6d, 0x6c, 0x6b, 0x65, 0x6d, 0x31, 0x30, 0x32, 0x34, 0x2d, 0x76, 0x31];
    assert(r@ =~= label_1024_spec());
    r
}

/// Upper bound on the `info` string: the longest label plus the largest hybrid
/// ciphertext (ML-KEM-1024 ciphertext 1568 + the 32-byte X25519 ephemeral key).
pub const INFO_MAX: usize = 1626;

/// Capacity for assembling a concatenated value: the biggest hybrid key or ciphertext
/// (the ML-KEM-1024 part plus the 32-byte X25519 part).
pub const CONCAT_MAX: usize = 1600;

/// The combined secret: the first 32 bytes the KDF derives with the X25519 secret as
/// salt, the ML-KEM secret as keying material and `label || ciphertext` as info.
pub open spec fn combine_spec<K: Kdf>(
    kdf: &K,
    label: Seq<u8>,
    ss_x25519: Seq<u8>,
    ss_mlkem: Seq<u8>,
    ciphertext: Seq<u8>,
) -> Result<Seq<u8>, KemError> {
    if label.len() + ciphertext.len() > INFO_MAX {
        Err(KemError::Internal)
    } else if kdf.max_output() < 32 {
        Err(KemError::Internal)
    } else {
        Ok(Seq::new(32, |i: int| kdf.output(ss_x25519, ss_mlkem, label + ciphertext)[i]))
    }
}

/// Appends `s` to `v`.
fn append(v: &mut Vec<u8>, s: &[u8])
    ensures
        final(v)@ == old(v)@ + s@,
{
    let ghost start = v@;
    let mut i: usize = 0;
    while i < s.len()
        invariant
            i <= s@.len(),
            v@ == start + s@.subrange(0, i as int),
        decreases s@.len() - i,
    {
        v.push(s[i]);
        i = i + 1;
    }
    assert(s@.subrange(0, s@.len() as int) =~= s@);
}

/// Combines the two component shared secrets into one, binding the transcript.
///
/// `ss_x25519` is the HKDF salt and `ss_mlkem` the input keying material; `label ||
/// ciphertext` is the info. The scratch output is wiped before returning.
pub fn combine_shared_secrets<K: Kdf>(
    kdf: &K,
    label: &[u8],
    ss_x25519: &[u8],
    ss_mlkem: &[u8],
    ciphertext: &[u8],
) -> (r: Result<SharedSecret, KemError>)
    ensures
        match combine_spec(kdf, label@, ss_x25519@, ss_mlkem@, ciphertext@) {
            Ok(ss) => r matches Ok(s) && s@ == ss,
            Err(e) => r == Err::<SharedSecret, KemError>(e),
        },
{
    if label.len() > INFO_MAX || ciphertext.len() > INFO_MAX - label.len() {
        return Err(KemError::Internal);
    }
    let mut info: Vec<u8> = Vec::new();
    append(&mut info, label);
    append(&mut info, ciphertext);
    let mut okm: Vec<u8> = Vec::new();
    let mut i: usize = 0;
    while i < 32
        invariant
            i <= 32,
            okm@.len() == i,
        decreases 32 - i,
    {
        okm.push(0);
        i = i + 1;
    }
    let derived = kdf.derive(ss_x25519, ss_mlkem, info.as_slice(), okm.as_mut_slice());
    if derived.is_err() {
        return Err(KemError::Internal);
    }
    proof {
        assert(okm@ =~= Seq::new(32, |j: int| kdf.output(ss_x25519@, ss_mlkem@, label@ + ciphertext@)[j]));
    }
    let combined = match SharedSecret::try_from(okm.as_slice()) {
        Ok(s) => s,
        Err(_) => return Err(KemError::Internal),
    };
    let _ = vec_len(&okm);
    wipe(&mut okm);
    Ok(combined)
}

/// Splits hybrid bytes into the ML-KEM part (all but the last 32 bytes) and the
/// 32-byte X25519 part. `None` if there are fewer than 32 bytes.
pub fn split_last_32(bytes: &[u8]) -> (r: Option<(&[u8], [u8; 32])>)
    ensures
        bytes@.len() < 32 ==> r is None,
        bytes@.len() >= 32 ==> (r matches Some((head, tail)) && head@ == bytes@.subrange(
            0,
            bytes@.len() - 32,
        ) && tail@ == bytes@.subrange(bytes@.len() - 32, bytes@.len() as int)),
{
    if bytes.len() < 32 {
        return None;
    }
    let n = bytes.len() - 32;
    let tail = array32_at(bytes, n);
    let head = vstd::slice::slice_subrange(bytes, 0, n);
    Some((head, tail))
}

/// Concatenates `head || tail`, or `Internal` if that exceeds the scratch capacity.
pub fn concat(head: &[u8], tail: &[u8; 32]) -> (r: Result<Vec<u8>, KemError>)
    ensures
        head@.len() + 32 <= CONCAT_MAX ==> (r matches Ok(v) && v@ == head@ + tail@),
        head@.len() + 32 > CONCAT_MAX ==> r == Err::<Vec<u8>, KemError>(KemError::Internal),
{
    if head.len() > CONCAT_MAX - 32 {
        return Err(KemError::Internal);
    }
    let mut out: Vec<u8> = Vec::new();
    append(&mut out, head);
    append(&mut out, tail);
    Ok(out)
}

/// Concatenates `head || tail` in a scratch buffer and builds the bounded value `T`
/// from the result, wiping the scratch buffer before returning (it may briefly hold
/// secret key material).
pub fn concat_into<T: FromBytes>(head: &[u8], tail: &[u8; 32]) -> (r: Result<T, KemError>)
    ensures
        head@.len() + 32 <= CONCAT_MAX && head@.len() + 32 <= T::capacity() ==> (r matches Ok(v)
            && v.bytes() == head@ + tail@),
        !(head@.len() + 32 <= CONCAT_MAX && head@.len() + 32 <= T::capacity()) ==> r
            is Err && r == Err::<T, KemError>(KemError::Internal),
{
    let mut buf = match concat(head, tail) {
        Ok(b) => b,
        Err(e) => return Err(e),
    };
    let joined = T::from_bytes(buf.as_slice());
    let _ = vec_len(&buf);
    wipe(&mut buf);
    match joined {
        Some(v) => Ok(v),
        None => Err(KemError::Internal),
    }
}

/// The hybrid key pair from `entropy`: the first 64 bytes seed ML-KEM, the next 32 are
/// the X25519 secret. The encapsulation key is the ML-KEM key followed by the X25519
/// public key; the decapsulation key the ML-KEM seed followed by the X25519 secret.
pub open spec fn hybrid_keygen(ek_of_seed: spec_fn(Seq<u8>, Seq<u8>) -> Seq<u8>, entropy: Seq<u8>) -> Result<
    (Seq<u8>, Seq<u8>),
    KemError,
> {
    if entropy.len() < 96 {
        Err(KemError::Internal)
    } else {
        match mlkem_keygen(ek_of_seed, entropy.subrange(0, 64)) {
            Err(e) => Err(e),
            Ok((mlkem_ek, mlkem_dk)) => {
                let x25519_sk = entropy.subrange(64, 96);
                if mlkem_ek.len() + 32 > CONCAT_MAX {
                    Err(KemError::Internal)
                } else {
                    Ok((mlkem_ek + x25519_public(x25519_sk), mlkem_dk + x25519_sk))
                }
            },
        }
    }
}

/// What hybrid encapsulation to `key` gives: the first 32 bytes of `entropy` drive the
/// ML-KEM encapsulation, the next 32 are the X25519 ephemeral secret; the ciphertext is
/// the ML-KEM ciphertext followed by the ephemeral public key, and the secret is the
/// combination of both component secrets bound to that ciphertext.
pub open spec fn hybrid_encaps(
    encaps: spec_fn(Seq<u8>, Seq<u8>) -> Option<(Seq<u8>, Seq<u8>)>,
    combine: spec_fn(Seq<u8>, Seq<u8>, Seq<u8>) -> Result<Seq<u8>, KemError>,
    key: Seq<u8>,
    entropy: Seq<u8>,
) -> Result<(Seq<u8>, Seq<u8>), KemError> {
    if key.len() < 32 {
        Err(KemError::MalformedKey)
    } else if entropy.len() < 64 {
        Err(KemError::Internal)
    } else {
        let mlkem_ek = key.subrange(0, key.len() - 32);
        let x25519_pk = key.subrange(key.len() - 32, key.len() as int);
        match mlkem_encaps(encaps, mlkem_ek, entropy.subrange(0, 32)) {
            Err(e) => Err(e),
            Ok((mlkem_ct, ss_mlkem)) => {
                let eph_sk = entropy.subrange(32, 64);
                let ss_x25519 = x25519_shared(eph_sk, x25519_pk);
                if mlkem_ct.len() + 32 > CONCAT_MAX {
                    Err(KemError::Internal)
                } else {
                    let ct = mlkem_ct + x25519_public(eph_sk);
                    match combine(ss_x25519, ss_mlkem, ct) {
                        Ok(ss) => Ok((ct, ss)),
                        Err(e) => Err(e),
                    }
                }
            },
        }
    }
}

/// What hybrid decapsulation of `ciphertext` with `key` gives: both components are
/// recovered and combined, bound to the whole ciphertext.
pub open spec fn hybrid_decaps(
    decaps: spec_fn(Seq<u8>, Seq<u8>, Seq<u8>) -> Option<Seq<u8>>,
    combine: spec_fn(Seq<u8>, Seq<u8>, Seq<u8>) -> Result<Seq<u8>, KemError>,
    key: Seq<u8>,
    ciphertext: Seq<u8>,
) -> Result<Seq<u8>, KemError> {
    if key.len() < 32 {
        Err(KemError::MalformedKey)
    } else if ciphertext.len() < 32 {
        Err(KemError::MalformedCiphertext)
    } else {
        let mlkem_seed = key.subrange(0, key.len() - 32);
        let x25519_sk = key.subrange(key.len() - 32, key.len() as int);
        let mlkem_ct = ciphertext.subrange(0, ciphertext.len() - 32);
        let eph_pk = ciphertext.subrange(ciphertext.len() - 32, ciphertext.len() as int);
        match mlkem_decaps(decaps, mlkem_seed, mlkem_ct) {
            Err(e) => Err(e),
            Ok(ss_mlkem) => combine(x25519_shared(x25519_sk, eph_pk), ss_mlkem, ciphertext),
        }
    }
}

/// The hybrid X25519 + ML-KEM-768 backend (HKDF-SHA-256 combiner).
pub struct X25519MlKem768;

/// The combiner of the ML-KEM-768 hybrid.
pub open spec fn combine_768(ss_x25519: Seq<u8>, ss_mlkem: Seq<u8>, ciphertext: Seq<u8>) -> Result<Seq<u8>, KemError> {
    if label_768_spec().len() + ciphertext.len() > INFO_MAX {
        Err(KemError::Internal)
    } else {
        Ok(Seq::new(32, |i: int| hkdf_sha256_stream(hkdf_salt(ss_x25519), ss_mlkem, label_768_spec() + ciphertext)[i]))
    }
}

impl X25519MlKem768 {
    /// Generates a hybrid keypair: the first 64 bytes of `entropy` seed ML-KEM and the
    /// next 32 seed X25519, so `entropy` must be at least 96 bytes.
    pub fn keygen(&self, entropy: &[u8]) -> (r: Result<(EncapsulationKey, DecapsulationKey), KemError>)
        ensures
            match hybrid_keygen(|d: Seq<u8>, z: Seq<u8>| mlkem768_encapsulation_key(d, z), entropy@) {
                Ok((ek, dk)) => r matches Ok((e, k)) && e@ == ek && k@ == dk,
                Err(e) => r == Err::<(EncapsulationKey, DecapsulationKey), KemError>(e),
            },
    {
        if entropy.len() < 96 {
            return Err(KemError::Internal);
        }
        let mlkem_entropy = vstd::slice::slice_subrange(entropy, 0, 64);
        let mut x25519_entropy = array32_at(entropy, 64);
        let (mlkem_ek, mlkem_dk) = match MlKem::<MlKem768>::new().keygen(mlkem_entropy) {
            Ok(k) => k,
            Err(e) => return Err(e),
        };
        let (mut x25519_sk, x25519_pk) = keypair_from_entropy(&x25519_entropy);
        wipe32(&mut x25519_entropy);
        let encapsulation_key = match concat_into::<EncapsulationKey>(mlkem_ek.as_slice(), &x25519_pk) {
            Ok(k) => k,
            Err(e) => return Err(e),
        };
        let decapsulation_key = match concat_into::<DecapsulationKey>(mlkem_dk.as_slice(), &x25519_sk) {
            Ok(k) => k,
            Err(e) => return Err(e),
        };
        wipe32(&mut x25519_sk);
        Ok((encapsulation_key, decapsulation_key))
    }
}

impl Kem for X25519MlKem768 {
    open spec fn encaps(&self, key: Seq<u8>, entropy: Seq<u8>) -> Result<(Seq<u8>, Seq<u8>), KemError> {
        hybrid_encaps(
            |ek: Seq<u8>, m: Seq<u8>| mlkem768_encapsulate(ek, m),
            |a: Seq<u8>, b: Seq<u8>, c: Seq<u8>| combine_768(a, b, c),
            key,
            entropy,
        )
    }

    open spec fn decaps(&self, key: Seq<u8>, ciphertext: Seq<u8>) -> Result<Seq<u8>, KemError> {
        hybrid_decaps(
            |d: Seq<u8>, z: Seq<u8>, ct: Seq<u8>| mlkem768_decapsulate(d, z, ct),
            |a: Seq<u8>, b: Seq<u8>, c: Seq<u8>| combine_768(a, b, c),
            key,
            ciphertext,
        )
    }

    fn encapsulate(&self, key: &EncapsulationKey, entropy: &[u8]) -> (r: Result<
        (Ciphertext, SharedSecret),
        KemError,
    >)
        ensures
            r matches Ok((c, s)) ==> key@.len() >= 32 && entropy@.len() >= 64 && (mlkem768_encapsulate(
                key@.subrange(0, key@.len() - 32),
                entropy@.subrange(0, 32),
            ) matches Some((mlkem_ct, ss_mlkem)) && c@ == mlkem_ct + x25519_public(entropy@.subrange(32, 64))
                && s@.len() == 32 && forall|i: int|
                0 <= i < 32 ==> s@[i] == hkdf_sha256_stream(
                    hkdf_salt(
                        x25519_shared(
                            entropy@.subrange(32, 64),
                            key@.subrange(key@.len() - 32, key@.len() as int),
                        ),
                    ),
                    ss_mlkem,
                    label_768_spec() + c@,
                )[i]),
    {
        let (mlkem_ek, x25519_pk) = match split_last_32(key.as_slice()) {
            Some(x) => x,
            None => return Err(KemError::MalformedKey),
        };
        if entropy.len() < 64 {
            return Err(KemError::Internal);
        }
        proof {
            lemma_x25519_mlkem768_encaps(key@, entropy@);
        }
        let mlkem_ek = match EncapsulationKey::try_from(mlkem_ek) {
            Ok(k) => k,
            Err(_) => return Err(KemError::MalformedKey),
        };
        let mlkem_entropy = vstd::slice::slice_subrange(entropy, 0, 32);
        let (mlkem_ct, mut ss_mlkem) = match MlKem::<MlKem768>::new().encapsulate(&mlkem_ek, mlkem_entropy) {
            Ok(x) => x,
            Err(e) => return Err(e),
        };
        let mut eph_entropy = array32_at(entropy, 32);
        let (mut eph_sk, eph_pk) = keypair_from_entropy(&eph_entropy);
        wipe32(&mut eph_entropy);
        let mut ss_x25519 = dh(&eph_sk, &x25519_pk);
        wipe32(&mut eph_sk);
        let ciphertext = match concat_into::<Ciphertext>(mlkem_ct.as_slice(), &eph_pk) {
            Ok(c) => c,
            Err(e) => return Err(e),
        };
        let kdf = Hkdf::<sha2::Sha256>::new();
        let label = label_768();
        let shared = combine_shared_secrets(
            &kdf,
            &label,
            &ss_x25519,
            ss_mlkem.as_slice(),
            ciphertext.as_slice(),
        );
        proof {
            assert(kdf.max_output() >= 32);
        }
        wipe32(&mut ss_x25519);
        ss_mlkem.zeroize();
        match shared {
            Ok(s) => Ok((ciphertext, s)),
            Err(e) => Err(e),
        }
    }

    fn decapsulate(&self, key: &DecapsulationKey, ciphertext: &Ciphertext) -> (r: Result<
        SharedSecret,
        KemError,
    >)
        ensures
            r matches Ok(s) ==> key@.len() == 96 && ciphertext@.len() >= 32 && (mlkem768_decapsulate(
                key@.subrange(0, 32),
                key@.subrange(32, 64),
                ciphertext@.subrange(0, ciphertext@.len() - 32),
            ) matches Some(ss_mlkem) && s@.len() == 32 && forall|i: int|
                0 <= i < 32 ==> s@[i] == hkdf_sha256_stream(
                    hkdf_salt(
                        x25519_shared(
                            key@.subrange(64, 96),
                            ciphertext@.subrange(ciphertext@.len() - 32, ciphertext@.len() as int),
                        ),
                    ),
                    ss_mlkem,
                    label_768_spec() + ciphertext@,
                )[i]),
    {
        let (mlkem_seed, mut x25519_sk) = match split_last_32(key.as_slice()) {
            Some(x) => x,
            None => return Err(KemError::MalformedKey),
        };
        let (mlkem_ct, eph_pk) = match split_last_32(ciphertext.as_slice()) {
            Some(x) => x,
            None => return Err(KemError::MalformedCiphertext),
        };
        let mut mlkem_dk = match DecapsulationKey::try_from(mlkem_seed) {
            Ok(k) => k,
            Err(_) => return Err(KemError::MalformedKey),
        };
        let mlkem_ct = match Ciphertext::try_from(mlkem_ct) {
            Ok(c) => c,
            Err(_) => return Err(KemError::MalformedCiphertext),
        };
        let decapsulated = MlKem::<MlKem768>::new().decapsulate(&mlkem_dk, &mlkem_ct);
        proof {
            if key@.len() == 96 {
                assert(key@.subrange(0, 64).subrange(0, 32) =~= key@.subrange(0, 32));
                assert(key@.subrange(0, 64).subrange(32, 64) =~= key@.subrange(32, 64));
            }
        }
        mlkem_dk.zeroize();
        let mut ss_mlkem = match decapsulated {
            Ok(s) => s,
            Err(e) => return Err(e),
        };
        let mut ss_x25519 = dh(&x25519_sk, &eph_pk);
        wipe32(&mut x25519_sk);
        let kdf = Hkdf::<sha2::Sha256>::new();
        let label = label_768();
        let shared = combine_shared_secrets(
            &kdf,
            &label,
            &ss_x25519,
            ss_mlkem.as_slice(),
            ciphertext.as_slice(),
        );
        wipe32(&mut ss_x25519);
        ss_mlkem.zeroize();
        shared
    }
}

/// The hybrid X25519 + ML-KEM-1024 backend (HKDF-SHA-384 combiner).
pub struct X25519MlKem1024;

/// The combiner of the ML-KEM-1024 hybrid.
pub open spec fn combine_1024(ss_x25519: Seq<u8>, ss_mlkem: Seq<u8>, ciphertext: Seq<u8>) -> Result<Seq<u8>, KemError> {
    if label_1024_spec().len() + ciphertext.len() > INFO_MAX {
        Err(KemError::Internal)
    } else {
        Ok(Seq::new(32, |i: int| hkdf_sha384_stream(hkdf_salt(ss_x25519), ss_mlkem, label_1024_spec() + ciphertext)[i]))
    }
}

impl X25519MlKem1024 {
    /// Generates a hybrid keypair: the first 64 bytes of `entropy` seed ML-KEM and the
    /// next 32 seed X25519, so `entropy` must be at least 96 bytes.
    pub fn keygen(&self, entropy: &[u8]) -> (r: Result<(EncapsulationKey, DecapsulationKey), KemError>)
        ensures
            match hybrid_keygen(|d: Seq<u8>, z: Seq<u8>| mlkem1024_encapsulation_key(d, z), entropy@) {
                Ok((ek, dk)) => r matches Ok((e, k)) && e@ == ek && k@ == dk,
                Err(e) => r == Err::<(EncapsulationKey, DecapsulationKey), KemError>(e),
            },
    {
        if entropy.len() < 96 {
            return Err(KemError::Internal);
        }
        let mlkem_entropy = vstd::slice::slice_subrange(entropy, 0, 64);
        let mut x25519_entropy = array32_at(entropy, 64);
        let (mlkem_ek, mlkem_dk) = match MlKem::<MlKem1024>::new().keygen(mlkem_entropy) {
            Ok(k) => k,
            Err(e) => return Err(e),
        };
        let (mut x25519_sk, x25519_pk) = keypair_from_entropy(&x25519_entropy);
        wipe32(&mut x25519_entropy);
        let encapsulation_key = match concat_into::<EncapsulationKey>(mlkem_ek.as_slice(), &x25519_pk) {
            Ok(k) => k,
            Err(e) => return Err(e),
        };
        let decapsulation_key = match concat_into::<DecapsulationKey>(mlkem_dk.as_slice(), &x25519_sk) {
            Ok(k) => k,
            Err(e) => return Err(e),
        };
        wipe32(&mut x25519_sk);
        Ok((encapsulation_key, decapsulation_key))
    }
}

impl Kem for X25519MlKem1024 {
    open spec fn encaps(&self, key: Seq<u8>, entropy: Seq<u8>) -> Result<(Seq<u8>, Seq<u8>), KemError> {
        hybrid_encaps(
            |ek: Seq<u8>, m: Seq<u8>| mlkem1024_encapsulate(ek, m),
            |a: Seq<u8>, b: Seq<u8>, c: Seq<u8>| combine_1024(a, b, c),
            key,
            entropy,
        )
    }

    open spec fn decaps(&self, key: Seq<u8>, ciphertext: Seq<u8>) -> Result<Seq<u8>, KemError> {
        hybrid_decaps(
            |d: Seq<u8>, z: Seq<u8>, ct: Seq<u8>| mlkem1024_decapsulate(d, z, ct),
            |a: Seq<u8>, b: Seq<u8>, c: Seq<u8>| combine_1024(a, b, c),
            key,
            ciphertext,
        )
    }

    fn encapsulate(&self, key: &EncapsulationKey, entropy: &[u8]) -> (r: Result<
        (Ciphertext, SharedSecret),
        KemError,
    >)
        ensures
            r matches Ok((c, s)) ==> key@.len() >= 32 && entropy@.len() >= 64 && (mlkem1024_encapsulate(
                key@.subrange(0, key@.len() - 32),
                entropy@.subrange(0, 32),
            ) matches Some((mlkem_ct, ss_mlkem)) && c@ == mlkem_ct + x25519_public(entropy@.subrange(32, 64))
                && s@.len() == 32 && forall|i: int|
                0 <= i < 32 ==> s@[i] == hkdf_sha384_stream(
                    hkdf_salt(
                        x25519_shared(
                            entropy@.subrange(32, 64),
                            key@.subrange(key@.len() - 32, key@.len() as int),
                        ),
                    ),
                    ss_mlkem,
                    label_1024_spec() + c@,
                )[i]),
    {
        let (mlkem_ek, x25519_pk) = match split_last_32(key.as_slice()) {
            Some(x) => x,
            None => return Err(KemError::MalformedKey),
        };
        if entropy.len() < 64 {
            return Err(KemError::Internal);
        }
        proof {
            lemma_x25519_mlkem1024_encaps(key@, entropy@);
        }
        let mlkem_ek = match EncapsulationKey::try_from(mlkem_ek) {
            Ok(k) => k,
            Err(_) => return Err(KemError::MalformedKey),
        };
        let mlkem_entropy = vstd::slice::slice_subrange(entropy, 0, 32);
        let (mlkem_ct, mut ss_mlkem) = match MlKem::<MlKem1024>::new().encapsulate(&mlkem_ek, mlkem_entropy) {
            Ok(x) => x,
            Err(e) => return Err(e),
        };
        let mut eph_entropy = array32_at(entropy, 32);
        let (mut eph_sk, eph_pk) = keypair_from_entropy(&eph_entropy);
        wipe32(&mut eph_entropy);
        let mut ss_x25519 = dh(&eph_sk, &x25519_pk);
        wipe32(&mut eph_sk);
        let ciphertext = match concat_into::<Ciphertext>(mlkem_ct.as_slice(), &eph_pk) {
            Ok(c) => c,
            Err(e) => return Err(e),
        };
        let kdf = Hkdf::<sha2::Sha384>::new();
        let label = label_1024();
        let shared = combine_shared_secrets(
            &kdf,
            &label,
            &ss_x25519,
            ss_mlkem.as_slice(),
            ciphertext.as_slice(),
        );
        proof {
            assert(kdf.max_output() >= 32);
        }
        wipe32(&mut ss_x25519);
        ss_mlkem.zeroize();
        match shared {
            Ok(s) => Ok((ciphertext, s)),
            Err(e) => Err(e),
        }
    }

    fn decapsulate(&self, key: &DecapsulationKey, ciphertext: &Ciphertext) -> (r: Result<
        SharedSecret,
        KemError,
    >)
        ensures
            r matches Ok(s) ==> key@.len() == 96 && ciphertext@.len() >= 32 && (mlkem1024_decapsulate(
                key@.subrange(0, 32),
                key@.subrange(32, 64),
                ciphertext@.subrange(0, ciphertext@.len() - 32),
            ) matches Some(ss_mlkem) && s@.len() == 32 && forall|i: int|
                0 <= i < 32 ==> s@[i] == hkdf_sha384_stream(
                    hkdf_salt(
                        x25519_shared(
                            key@.subrange(64, 96),
                            ciphertext@.subrange(ciphertext@.len() - 32, ciphertext@.len() as int),
                        ),
                    ),
                    ss_mlkem,
                    label_1024_spec() + ciphertext@,
                )[i]),
    {
        let (mlkem_seed, mut x25519_sk) = match split_last_32(key.as_slice()) {
            Some(x) => x,
            None => return Err(KemError::MalformedKey),
        };
        let (mlkem_ct, eph_pk) = match split_last_32(ciphertext.as_slice()) {
            Some(x) => x,
            None => return Err(KemError::MalformedCiphertext),
        };
        let mut mlkem_dk = match DecapsulationKey::try_from(mlkem_seed) {
            Ok(k) => k,
            Err(_) => return Err(KemError::MalformedKey),
        };
        let mlkem_ct = match Ciphertext::try_from(mlkem_ct) {
            Ok(c) => c,
            Err(_) => return Err(KemError::MalformedCiphertext),
        };
        let decapsulated = MlKem::<MlKem1024>::new().decapsulate(&mlkem_dk, &mlkem_ct);
        proof {
            if key@.len() == 96 {
                assert(key@.subrange(0, 64).subrange(0, 32) =~= key@.subrange(0, 32));
                assert(key@.subrange(0, 64).subrange(32, 64) =~= key@.subrange(32, 64));
            }
        }
        mlkem_dk.zeroize();
        let mut ss_mlkem = match decapsulated {
            Ok(s) => s,
            Err(e) => return Err(e),
        };
        let mut ss_x25519 = dh(&x25519_sk, &eph_pk);
        wipe32(&mut x25519_sk);
        let kdf = Hkdf::<sha2::Sha384>::new();
        let label = label_1024();
        let shared = combine_shared_secrets(
            &kdf,
            &label,
            &ss_x25519,
            ss_mlkem.as_slice(),
            ciphertext.as_slice(),
        );
        wipe32(&mut ss_x25519);
        ss_mlkem.zeroize();
        shared
    }
}

/// Hybrid ML-KEM-768 encapsulation over its component primitives. The key splits into
/// the ML-KEM key and the recipient's X25519 key (its last 32 bytes), the entropy into
/// the ML-KEM randomness `m` (32 bytes) and the ephemeral X25519 secret (the next 32).
/// The ciphertext is the ML-KEM ciphertext followed by the ephemeral public key; the
/// shared secret is the first 32 bytes of HKDF-SHA-256 with the X25519 secret as salt,
/// the ML-KEM secret as keying material and the label followed by that ciphertext as
/// info. Encapsulation succeeds whenever the ML-KEM one does and the lengths fit.
pub proof fn lemma_x25519_mlkem768_encaps(key: Seq<u8>, entropy: Seq<u8>)
    requires
        key.len() >= 32,
        entropy.len() >= 64,
    ensures
        X25519MlKem768.encaps(key, entropy) matches Ok((ct, ss)) ==> (mlkem768_encapsulate(
            key.subrange(0, key.len() - 32),
            entropy.subrange(0, 32),
        ) matches Some((mlkem_ct, ss_mlkem)) && ct == mlkem_ct + x25519_public(entropy.subrange(32, 64))
            && ss.len() == 32 && forall|i: int|
            0 <= i < 32 ==> ss[i] == hkdf_sha256_stream(
                hkdf_salt(
                    x25519_shared(entropy.subrange(32, 64), key.subrange(key.len() - 32, key.len() as int)),
                ),
                ss_mlkem,
                label_768_spec() + ct,
            )[i]),
        mlkem768_encapsulate(key.subrange(0, key.len() - 32), entropy.subrange(0, 32)) matches Some(
            (mlkem_ct, ss_mlkem),
        ) && mlkem_ct.len() <= CIPHERTEXT_MAX && ss_mlkem.len() <= SHARED_SECRET_MAX && mlkem_ct.len() + 32
            <= CONCAT_MAX && label_768_spec().len() + mlkem_ct.len() + x25519_public(
            entropy.subrange(32, 64),
        ).len() <= INFO_MAX ==> X25519MlKem768.encaps(
            key,
            entropy,
        ) is Ok,
{
    assert(entropy.subrange(0, 32).subrange(0, 32) =~= entropy.subrange(0, 32));
}

/// Hybrid ML-KEM-768 decapsulation over its component primitives. A 96-byte key is the
/// ML-KEM seed `d || z` followed by the X25519 secret; the ciphertext splits into the
/// ML-KEM ciphertext and the ephemeral X25519 key (its last 32 bytes). The shared
/// secret is the first 32 bytes of HKDF-SHA-256 with the X25519 secret of the key and
/// that ephemeral key as salt, the ML-KEM decapsulation under `KeyGen_internal(d, z)` as
/// keying material and the label followed by the whole ciphertext as info.
pub proof fn lemma_x25519_mlkem768_decaps(key: Seq<u8>, ciphertext: Seq<u8>)
    requires
        key.len() == 96,
        ciphertext.len() >= 32,
    ensures
        match mlkem768_decapsulate(
            key.subrange(0, 32),
            key.subrange(32, 64),
            ciphertext.subrange(0, ciphertext.len() - 32),
        ) {
            None => X25519MlKem768.decaps(key, ciphertext) == Err::<Seq<u8>, KemError>(
                KemError::MalformedCiphertext,
            ),
            Some(ss_mlkem) => ss_mlkem.len() <= SHARED_SECRET_MAX && label_768_spec().len() + ciphertext.len()
                <= INFO_MAX ==> (X25519MlKem768.decaps(key, ciphertext) matches Ok(ss) && ss.len() == 32
                && forall|i: int|
                0 <= i < 32 ==> ss[i] == hkdf_sha256_stream(
                    hkdf_salt(
                        x25519_shared(
                            key.subrange(64, 96),
                            ciphertext.subrange(ciphertext.len() - 32, ciphertext.len() as int),
                        ),
                    ),
                    ss_mlkem,
                    label_768_spec() + ciphertext,
                )[i]),
        },
{
    let seed = key.subrange(0, key.len() - 32);
    assert(seed.subrange(0, 32) =~= key.subrange(0, 32));
    assert(seed.subrange(32, 64) =~= key.subrange(32, 64));
}

/// Hybrid ML-KEM-1024 encapsulation over its component primitives. The key splits into
/// the ML-KEM key and the recipient's X25519 key (its last 32 bytes), the entropy into
/// the ML-KEM randomness `m` (32 bytes) and the ephemeral X25519 secret (the next 32).
/// The ciphertext is the ML-KEM ciphertext followed by the ephemeral public key; the
/// shared secret is the first 32 bytes of HKDF-SHA-384 with the X25519 secret as salt,
/// the ML-KEM secret as keying material and the label followed by that ciphertext as
/// info. Encapsulation succeeds whenever the ML-KEM one does and the lengths fit.
pub proof fn lemma_x25519_mlkem1024_encaps(key: Seq<u8>, entropy: Seq<u8>)
    requires
        key.len() >= 32,
        entropy.len() >= 64,
    ensures
        X25519MlKem1024.encaps(key, entropy) matches Ok((ct, ss)) ==> (mlkem1024_encapsulate(
            key.subrange(0, key.len() - 32),
            entropy.subrange(0, 32),
        ) matches Some((mlkem_ct, ss_mlkem)) && ct == mlkem_ct + x25519_public(entropy.subrange(32, 64))
            && ss.len() == 32 && forall|i: int|
            0 <= i < 32 ==> ss[i] == hkdf_sha384_stream(
                hkdf_salt(
                    x25519_shared(entropy.subrange(32, 64), key.subrange(key.len() - 32, key.len() as int)),
                ),
                ss_mlkem,
                label_1024_spec() + ct,
            )[i]),
        mlkem1024_encapsulate(key.subrange(0, key.len() - 32), entropy.subrange(0, 32)) matches Some(
            (mlkem_ct, ss_mlkem),
        ) && mlkem_ct.len() <= CIPHERTEXT_MAX && ss_mlkem.len() <= SHARED_SECRET_MAX && mlkem_ct.len() + 32
            <= CONCAT_MAX && label_1024_spec().len() + mlkem_ct.len() + x25519_public(
            entropy.subrange(32, 64),
        ).len() <= INFO_MAX ==> X25519MlKem1024.encaps(
            key,
            entropy,
        ) is Ok,
{
    assert(entropy.subrange(0, 32).subrange(0, 32) =~= entropy.subrange(0, 32));
}

/// Hybrid ML-KEM-1024 decapsulation over its component primitives. A 96-byte key is the
/// ML-KEM seed `d || z` followed by the X25519 secret; the ciphertext splits into the
/// ML-KEM ciphertext and the ephemeral X25519 key (its last 32 bytes). The shared
/// secret is the first 32 bytes of HKDF-SHA-384 with the X25519 secret of the key and
/// that ephemeral key as salt, the ML-KEM decapsulation under `KeyGen_internal(d, z)` as
/// keying material and the label followed by the whole ciphertext as info.
pub proof fn lemma_x25519_mlkem1024_decaps(key: Seq<u8>, ciphertext: Seq<u8>)
    requires
        key.len() == 96,
        ciphertext.len() >= 32,
    ensures
        match mlkem1024_decapsulate(
            key.subrange(0, 32),
            key.subrange(32, 64),
            ciphertext.subrange(0, ciphertext.len() - 32),
        ) {
            None => X25519MlKem1024.decaps(key, ciphertext) == Err::<Seq<u8>, KemError>(
                KemError::MalformedCiphertext,
            ),
            Some(ss_mlkem) => ss_mlkem.len() <= SHARED_SECRET_MAX && label_1024_spec().len() + ciphertext.len()
                <= INFO_MAX ==> (X25519MlKem1024.decaps(key, ciphertext) matches Ok(ss) && ss.len() == 32
                && forall|i: int|
                0 <= i < 32 ==> ss[i] == hkdf_sha384_stream(
                    hkdf_salt(
                        x25519_shared(
                            key.subrange(64, 96),
                            ciphertext.subrange(ciphertext.len() - 32, ciphertext.len() as int),
                        ),
                    ),
                    ss_mlkem,
                    label_1024_spec() + ciphertext,
                )[i]),
        },
{
    let seed = key.subrange(0, key.len() - 32);
    assert(seed.subrange(0, 32) =~= key.subrange(0, 32));
    assert(seed.subrange(32, 64) =~= key.subrange(32, 64));
}

} // verus!
