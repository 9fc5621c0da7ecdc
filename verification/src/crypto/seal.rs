//! HPKE-style KEM+DEM seal/unseal core.
//!
//! Encrypt a payload to a recipient's KEM public key by combining a KEM with an AEAD:
//! encapsulate a fresh shared secret to the recipient, derive an AEAD key and nonce from
//! it with the KDF, then AEAD-encrypt the payload. Only the holder of the KEM private
//! key can decapsulate and unseal it. The components are returned as raw bytes; the
//! `COSE_Encrypt` framing is applied by the consumer.
use vstd::prelude::*;
use crate::crypto::aead::{Aead, Key, Nonce, Tag, KEY_LEN, NONCE_LEN, TAG_LEN};
use crate::crypto::bytes::{vec_len, wipe};
use crate::crypto::error::{AeadError, KdfError, KemError};
use crate::crypto::kdf::{hkdf_sha256_stream, Hkdf, Kdf};
use crate::crypto::kem::{Ciphertext, DecapsulationKey, EncapsulationKey, Kem};

verus! {

/// Domain-separation label bound into the key/nonce derivation: `koffer-seal-v1`.
pub open spec fn seal_label_spec() -> Seq<u8> {
    seq![0x6b, 0x6f, 0x66, 0x66, 0x65, 0x72, 0x2d, 0x73, 0x65, 0x61, 0x6c, 0x2d, 0x76, 0x31]
}

/// The seal label.
pub fn seal_label() -> (r: [u8; 14])
    ensures
        r@ == seal_label_spec(),
{
    let r = [0x6b, 0x6f, 0x66, 0x66, 0x65, 0x72, 0x2d, 0x73, 0x65, 0x61, 0x6c, 0x2d, 0x76, 0x31];
    assert(r@ =~= seal_label_spec());
    r
}

/// The raw components of a sealed payload (the ciphertext stays in the caller's buffer).
///
/// The consumer frames these into a `COSE_Encrypt` container: the KEM ciphertext into
/// the recipient, the nonce into the IV, and `ciphertext || tag` into the content.
#[derive(Debug, PartialEq, Eq)]
pub struct Sealed {
    /// The KEM encapsulation (lets the private-key holder recover the shared secret).
    pub kem_ciphertext: Ciphertext,
    /// The AEAD nonce.
    pub nonce: Nonce,
    /// The AEAD authentication tag.
    pub tag: Tag,
}

impl Clone for Sealed {
    fn clone(&self) -> (r: Self)
        ensures
            r.kem_ciphertext@ == self.kem_ciphertext@,
            r.nonce@ == self.nonce@,
            r.tag@ == self.tag@,
    {
        Sealed {
            kem_ciphertext: self.kem_ciphertext.clone(),
            nonce: self.nonce.clone(),
            tag: self.tag.clone(),
        }
    }
}

/// An error from sealing or unsealing.
#[derive(Debug, Clone, Copy, PartialEq, Eq, Structural)]
pub enum SealError {
    /// The KEM step failed (malformed key or ciphertext).
    Kem(KemError),
    /// The KDF step failed.
    Kdf(KdfError),
    /// The AEAD step failed; `Aead(AeadError::UnsealFailed)` means tampering or the
    /// wrong key.
    Aead(AeadError),
    /// An internal invariant was violated.
    Internal,
}

impl vstd::std_specs::convert::FromSpecImpl<KemError> for SealError {
    open spec fn obeys_from_spec() -> bool {
        true
    }

    open spec fn from_spec(e: KemError) -> SealError {
        SealError::Kem(e)
    }
}

impl From<KemError> for SealError {
    fn from(e: KemError) -> (r: Self) {
        SealError::Kem(e)
    }
}

impl vstd::std_specs::convert::FromSpecImpl<KdfError> for SealError {
    open spec fn obeys_from_spec() -> bool {
        true
    }

    open spec fn from_spec(e: KdfError) -> SealError {
        SealError::Kdf(e)
    }
}

impl From<KdfError> for SealError {
    fn from(e: KdfError) -> (r: Self) {
        SealError::Kdf(e)
    }
}

impl vstd::std_specs::convert::FromSpecImpl<AeadError> for SealError {
    open spec fn obeys_from_spec() -> bool {
        true
    }

    open spec fn from_spec(e: AeadError) -> SealError {
        SealError::Aead(e)
    }
}

impl From<AeadError> for SealError {
    fn from(e: AeadError) -> (r: Self) {
        SealError::Aead(e)
    }
}

/// The AEAD key and nonce derived from a shared secret: one KDF expansion of
/// `KEY_LEN + NONCE_LEN` bytes under the seal label, with no salt, split into the key
/// and the nonce.
pub open spec fn derive_spec<D: Kdf>(kdf: &D, shared_secret: Seq<u8>) -> Result<(Seq<u8>, Seq<u8>), SealError> {
    if kdf.max_output() < KEY_LEN + NONCE_LEN {
        Err(SealError::Kdf(KdfError::InvalidOutputLength))
    } else {
        let stream = kdf.output(Seq::empty(), shared_secret, seal_label_spec());
        Ok(
            (
                Seq::new(KEY_LEN as nat, |i: int| stream[i]),
                Seq::new(NONCE_LEN as nat, |i: int| stream[KEY_LEN + i]),
            ),
        )
    }
}

/// Derives the AEAD key and nonce from the KEM shared secret, wiping the scratch
/// buffer before returning.
pub fn derive_key_nonce<D: Kdf>(kdf: &D, shared_secret: &[u8]) -> (r: Result<(Key, Nonce), SealError>)
    ensures
        match derive_spec(kdf, shared_secret@) {
            Ok((k, n)) => r matches Ok((key, nonce)) && key@ == k && nonce@ == n,
            Err(e) => r == Err::<(Key, Nonce), SealError>(e),
        },
        r is Ok <==> kdf.max_output() >= KEY_LEN + NONCE_LEN,
        r matches Ok((key, nonce)) ==> key@.len() == KEY_LEN && nonce@.len() == NONCE_LEN && (forall|i: int|
            0 <= i < KEY_LEN ==> key@[i] == kdf.output(Seq::empty(), shared_secret@, seal_label_spec())[i])
            && (forall|i: int|
            0 <= i < NONCE_LEN ==> nonce@[i] == kdf.output(Seq::empty(), shared_secret@, seal_label_spec())[KEY_LEN
                + i]),
{
    let mut okm: Vec<u8> = Vec::new();
    let mut i: usize = 0;
    while i < KEY_LEN + NONCE_LEN
        invariant
            i <= KEY_LEN + NONCE_LEN,
            okm@.len() == i,
        decreases KEY_LEN + NONCE_LEN - i,
    {
        okm.push(0);
        i = i + 1;
    }
    let label = seal_label();
    let empty: [u8; 0] = [];
    match kdf.derive(&empty, shared_secret, &label, okm.as_mut_slice()) {
        Ok(()) => {},
        Err(e) => return Err(SealError::Kdf(e)),
    }
    proof {
        assert(empty@ =~= Seq::<u8>::empty());
    }
    let key_part = vstd::slice::slice_subrange(okm.as_slice(), 0, KEY_LEN);
    let nonce_part = vstd::slice::slice_subrange(okm.as_slice(), KEY_LEN, KEY_LEN + NONCE_LEN);
    let key = match Key::try_from(key_part) {
        Ok(k) => k,
        Err(_) => return Err(SealError::Internal),
    };
    let nonce = match Nonce::try_from(nonce_part) {
        Ok(n) => n,
        Err(_) => return Err(SealError::Internal),
    };
    proof {
        let stream = kdf.output(Seq::empty(), shared_secret@, seal_label_spec());
        assert(key@ =~= Seq::new(KEY_LEN as nat, |j: int| stream[j]));
        assert(nonce@ =~= Seq::new(NONCE_LEN as nat, |j: int| stream[KEY_LEN + j]));
    }
    let _ = vec_len(&okm);
    wipe(&mut okm);
    Ok((key, nonce))
}

/// Seals `buffer` (plaintext to ciphertext in place) to `recipient`, returning the
/// components.
///
/// Encapsulates a fresh shared secret to `recipient` with the caller's `entropy`,
/// derives the AEAD key and nonce from it, and AEAD-encrypts `buffer` with `aad`. Works
/// with any KEM (plain ML-KEM or hybrid), KDF, and AEAD. The shared secret and the
/// AEAD key are wiped once used.
pub fn seal<K: Kem, D: Kdf, A: Aead>(
    kem: &K,
    kdf: &D,
    aead: &A,
    recipient: &EncapsulationKey,
    aad: &[u8],
    buffer: &mut [u8],
    entropy: &[u8],
) -> (r: Result<Sealed, SealError>)
    ensures
        match kem.encaps(recipient@, entropy@) {
            Err(e) => r == Err::<Sealed, SealError>(SealError::Kem(e)) && final(buffer)@ == old(
                buffer,
            )@,
            Ok((kem_ct, ss)) => match derive_spec(kdf, ss) {
                Err(e) => r == Err::<Sealed, SealError>(e) && final(buffer)@ == old(buffer)@,
                Ok((k, n)) => match aead.sealed(k, n, aad@, old(buffer)@) {
                    Some((ct, tag)) => r matches Ok(s) && s.kem_ciphertext@ == kem_ct && s.nonce@
                        == n && s.tag@ == tag && final(buffer)@ == ct,
                    None => r == Err::<Sealed, SealError>(SealError::Aead(AeadError::Internal))
                        && final(buffer)@ == old(buffer)@,
                },
            },
        },
        r matches Ok(s) ==> s.tag@.len() == TAG_LEN,
{
    let (kem_ciphertext, mut shared_secret) = match kem.encapsulate(recipient, entropy) {
        Ok(x) => x,
        Err(e) => return Err(SealError::Kem(e)),
    };
    let derived = derive_key_nonce(kdf, shared_secret.as_slice());
    shared_secret.zeroize();
    let (mut key, nonce) = match derived {
        Ok(x) => x,
        Err(e) => return Err(e),
    };
    let sealed = aead.seal(&key, &nonce, aad, buffer);
    key.zeroize();
    let tag = match sealed {
        Ok(t) => t,
        Err(e) => return Err(SealError::Aead(e)),
    };
    Ok(Sealed { kem_ciphertext, nonce, tag })
}

/// Whether unsealing with `recipient` recovers `plaintext` from `ciphertext`: the KEM
/// gives back a secret, the key derived from it is the one that sealed `plaintext`
/// into `ciphertext` under this nonce and tag.
pub open spec fn unseal_recovers<K: Kem, D: Kdf, A: Aead>(
    kem: &K,
    kdf: &D,
    aead: &A,
    recipient: Seq<u8>,
    kem_ciphertext: Seq<u8>,
    nonce: Seq<u8>,
    tag: Seq<u8>,
    aad: Seq<u8>,
    ciphertext: Seq<u8>,
    plaintext: Seq<u8>,
) -> bool {
    match kem.decaps(recipient, kem_ciphertext) {
        Ok(ss) => match derive_spec(kdf, ss) {
            Ok((k, _)) => nonce.len() == NONCE_LEN && tag.len() == TAG_LEN && aead.sealed(
                k,
                nonce,
                aad,
                plaintext,
            ) == Some((ciphertext, tag)),
            Err(_) => false,
        },
        Err(_) => false,
    }
}

/// Unseals `buffer` (ciphertext to plaintext in place) using `recipient` and the sealed
/// components.
///
/// Decapsulates the shared secret, re-derives the AEAD key, and AEAD-decrypts and
/// verifies with the sealed nonce. Fails, leaving the buffer untouched, if the
/// ciphertext, nonce, tag, or KEM encapsulation was tampered or the key is wrong. The
/// shared secret and the AEAD key are wiped once used.
pub fn unseal<K: Kem, D: Kdf, A: Aead>(
    kem: &K,
    kdf: &D,
    aead: &A,
    recipient: &DecapsulationKey,
    sealed: &Sealed,
    aad: &[u8],
    buffer: &mut [u8],
) -> (r: Result<(), SealError>)
    ensures
        match kem.decaps(recipient@, sealed.kem_ciphertext@) {
            Err(e) => r == Err::<(), SealError>(SealError::Kem(e)) && final(buffer)@ == old(
                buffer,
            )@,
            Ok(ss) => match derive_spec(kdf, ss) {
                Err(e) => r == Err::<(), SealError>(e) && final(buffer)@ == old(buffer)@,
                Ok((k, _)) => {
                    &&& sealed.nonce@.len() != NONCE_LEN ==> r == Err::<(), SealError>(
                        SealError::Aead(AeadError::MalformedNonce),
                    ) && final(buffer)@ == old(buffer)@
                    &&& sealed.nonce@.len() == NONCE_LEN ==> (r is Ok) == (sealed.tag@.len()
                        == TAG_LEN && exists|p: Seq<u8>| #[trigger]
                        aead.sealed(k, sealed.nonce@, aad@, p) == Some(
                            (old(buffer)@, sealed.tag@),
                        ))
                    &&& r is Err && sealed.nonce@.len() == NONCE_LEN ==> r == Err::<(), SealError>(
                        SealError::Aead(AeadError::UnsealFailed),
                    ) && final(buffer)@ == old(buffer)@
                },
            },
        },
        r is Ok ==> unseal_recovers(
            kem,
            kdf,
            aead,
            recipient@,
            sealed.kem_ciphertext@,
            sealed.nonce@,
            sealed.tag@,
            aad@,
            old(buffer)@,
            final(buffer)@,
        ),
        forall|p: Seq<u8>|
            #[trigger] unseal_recovers(
                kem,
                kdf,
                aead,
                recipient@,
                sealed.kem_ciphertext@,
                sealed.nonce@,
                sealed.tag@,
                aad@,
                old(buffer)@,
                p,
            ) ==> r is Ok && final(buffer)@ == p,
{
    let mut shared_secret = match kem.decapsulate(recipient, &sealed.kem_ciphertext) {
        Ok(s) => s,
        Err(e) => return Err(SealError::Kem(e)),
    };
    let derived = derive_key_nonce(kdf, shared_secret.as_slice());
    shared_secret.zeroize();
    let (mut key, _derived_nonce) = match derived {
        Ok(x) => x,
        Err(e) => return Err(e),
    };
    let opened = aead.unseal(&key, &sealed.nonce, aad, buffer, &sealed.tag);
    key.zeroize();
    match opened {
        Ok(()) => Ok(()),
        Err(e) => Err(SealError::Aead(e)),
    }
}

/// Unsealing what was sealed recovers the plaintext, whenever the KEM's decapsulation
/// gives back the secret its encapsulation produced.
pub proof fn lemma_seal_then_unseal<K: Kem, D: Kdf, A: Aead>(
    kem: &K,
    kdf: &D,
    aead: &A,
    encapsulation_key: Seq<u8>,
    decapsulation_key: Seq<u8>,
    entropy: Seq<u8>,
    aad: Seq<u8>,
    plaintext: Seq<u8>,
    kem_ciphertext: Seq<u8>,
    shared_secret: Seq<u8>,
    key: Seq<u8>,
    nonce: Seq<u8>,
    ciphertext: Seq<u8>,
    tag: Seq<u8>,
)
    requires
        kem.encaps(encapsulation_key, entropy) == Ok::<(Seq<u8>, Seq<u8>), KemError>((kem_ciphertext, shared_secret)),
        kem.decaps(decapsulation_key, kem_ciphertext) == Ok::<Seq<u8>, KemError>(shared_secret),
        derive_spec(kdf, shared_secret) == Ok::<(Seq<u8>, Seq<u8>), SealError>((key, nonce)),
        aead.sealed(key, nonce, aad, plaintext) == Some((ciphertext, tag)),
        tag.len() == TAG_LEN,
    ensures
        unseal_recovers(
            kem,
            kdf,
            aead,
            decapsulation_key,
            kem_ciphertext,
            nonce,
            tag,
            aad,
            ciphertext,
            plaintext,
        ),
{
}

/// The AEAD key and nonce come from one KDF stream, in that order: with no salt, the
/// KEM shared secret as keying material and the seal label as info, the key is the
/// first `KEY_LEN` bytes of the stream and the nonce the `NONCE_LEN` bytes after them;
/// the derivation fails only for a KDF that cannot give that many bytes.
pub proof fn lemma_derive_key_then_nonce<D: Kdf>(kdf: &D, shared_secret: Seq<u8>)
    ensures
        derive_spec(kdf, shared_secret) is Ok <==> kdf.max_output() >= KEY_LEN + NONCE_LEN,
        derive_spec(kdf, shared_secret) matches Ok((key, nonce)) ==> key.len() == KEY_LEN && nonce.len()
            == NONCE_LEN && (forall|i: int|
            0 <= i < KEY_LEN ==> key[i] == kdf.output(Seq::empty(), shared_secret, seal_label_spec())[i])
            && (forall|i: int|
            0 <= i < NONCE_LEN ==> nonce[i] == kdf.output(Seq::empty(), shared_secret, seal_label_spec())[KEY_LEN
                + i]),
{
}

/// With HKDF-SHA-256, the AEAD key is the first 32 bytes of HKDF(salt = none,
/// IKM = the shared secret, info = `koffer-seal-v1`) and the nonce the next 12.
pub proof fn lemma_derive_key_then_nonce_hkdf_sha256(kdf: &Hkdf<sha2::Sha256>, shared_secret: Seq<u8>)
    ensures
        derive_spec(kdf, shared_secret) matches Ok((key, nonce)) && key.len() == 32
            && nonce.len() == 12 && (forall|i: int|
            0 <= i < 32 ==> key[i] == hkdf_sha256_stream(None, shared_secret, seal_label_spec())[i]) && (forall|
            i: int,
        |
            0 <= i < 12 ==> nonce[i] == hkdf_sha256_stream(None, shared_secret, seal_label_spec())[32 + i]),
{
}

} // verus!
