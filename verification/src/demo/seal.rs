//! Seal a payload with the KEM+DEM core and frame it as a `COSE_Encrypt`, then unseal
//! it, with the backends selected by the integer COSE codepoint.
//!
//! The seal side picks the backends from the profile; the unseal side from the KEM
//! codepoint on the wire. The KDF is not carried on the wire: it is pinned to the KEM
//! level (which identifies the profile). The KEM is the hybrid X25519 + ML-KEM; the
//! AEAD is AES-256-GCM.
use vstd::prelude::*;
use crate::crypto::aead::{Aead, Aes256Gcm, Nonce, Tag, NONCE_LEN, TAG_LEN};
use crate::crypto::alg::{aead_codepoint, kem_codepoint, kem_of_codepoint, KemAlg};
use crate::crypto::error::KemError;
use crate::crypto::hybrid::{hybrid_keygen, X25519MlKem1024, X25519MlKem768};
use crate::crypto::kdf::{hkdf_sha256, hkdf_sha384, Hkdf, Kdf};
use crate::crypto::kem::{Ciphertext, DecapsulationKey, EncapsulationKey, Kem, CIPHERTEXT_MAX};
use crate::crypto::mlkem::{mlkem1024_encapsulation_key, mlkem768_encapsulation_key};
use crate::crypto::profile::{profile_aead, profile_hybrid_kem, CryptoProfile};
use crate::crypto::seal::{derive_spec, seal, unseal, unseal_recovers, Sealed};
use crate::wire::alg::AlgId;
use crate::wire::cose::{
    lemma_encrypt_roundtrip, parse_encrypt, ser_encrypt, CoseEncrypt, EncryptView, Recipient,
    RecipientView,
};

verus! {

/// Whether `k` is one of the hybrid KEMs the unseal side dispatches to.
pub open spec fn is_hybrid(k: KemAlg) -> bool {
    k == KemAlg::X25519MlKem768 || k == KemAlg::X25519MlKem1024
}

/// The recipient key pair for the profile's hybrid KEM.
pub open spec fn recipient_keygen(p: CryptoProfile, entropy: Seq<u8>) -> Result<(Seq<u8>, Seq<u8>), KemError> {
    match p {
        CryptoProfile::Showcase => hybrid_keygen(|d: Seq<u8>, z: Seq<u8>| mlkem768_encapsulation_key(d, z), entropy),
        CryptoProfile::Cnsa20 => hybrid_keygen(|d: Seq<u8>, z: Seq<u8>| mlkem1024_encapsulation_key(d, z), entropy),
    }
}

/// What sealing `plaintext` with these backends gives: the KEM ciphertext, the nonce,
/// the tag and the ciphertext.
pub open spec fn seal_outcome<K: Kem, D: Kdf, A: Aead>(
    kem: &K,
    kdf: &D,
    aead: &A,
    recipient: Seq<u8>,
    aad: Seq<u8>,
    plaintext: Seq<u8>,
    entropy: Seq<u8>,
) -> Option<(Seq<u8>, Seq<u8>, Seq<u8>, Seq<u8>)> {
    match kem.encaps(recipient, entropy) {
        Err(_) => None,
        Ok((kem_ct, ss)) => match derive_spec(kdf, ss) {
            Err(_) => None,
            Ok((k, n)) => match aead.sealed(k, n, aad, plaintext) {
                Some((c, t)) => if t.len() == TAG_LEN && kem_ct.len() <= CIPHERTEXT_MAX {
                    Some((kem_ct, n, t, c))
                } else {
                    None
                },
                None => None,
            },
        },
    }
}

/// What sealing under the profile gives (its hybrid KEM, its KDF, AES-256-GCM).
pub open spec fn profile_seal(p: CryptoProfile, recipient: Seq<u8>, aad: Seq<u8>, plaintext: Seq<u8>, entropy: Seq<u8>) -> Option<
    (Seq<u8>, Seq<u8>, Seq<u8>, Seq<u8>),
> {
    match p {
        CryptoProfile::Showcase => seal_outcome(&X25519MlKem768, &hkdf_sha256(), &Aes256Gcm, recipient, aad, plaintext, entropy),
        CryptoProfile::Cnsa20 => seal_outcome(&X25519MlKem1024, &hkdf_sha384(), &Aes256Gcm, recipient, aad, plaintext, entropy),
    }
}

/// Whether unsealing with the hybrid `k` recovers `plaintext`.
pub open spec fn hybrid_recovers(
    k: KemAlg,
    recipient: Seq<u8>,
    kem_ciphertext: Seq<u8>,
    nonce: Seq<u8>,
    tag: Seq<u8>,
    aad: Seq<u8>,
    ciphertext: Seq<u8>,
    plaintext: Seq<u8>,
) -> bool {
    match k {
        KemAlg::X25519MlKem768 => unseal_recovers(&X25519MlKem768, &hkdf_sha256(), &Aes256Gcm, recipient, kem_ciphertext, nonce, tag, aad, ciphertext, plaintext),
        KemAlg::X25519MlKem1024 => unseal_recovers(&X25519MlKem1024, &hkdf_sha384(), &Aes256Gcm, recipient, kem_ciphertext, nonce, tag, aad, ciphertext, plaintext),
        _ => false,
    }
}

/// Generates the recipient key pair for `profile`'s hybrid KEM.
fn keygen_recipient(profile: CryptoProfile, entropy: &[u8]) -> (r: Option<(EncapsulationKey, DecapsulationKey)>)
    ensures
        match recipient_keygen(profile, entropy@) {
            Ok((ek, dk)) => r matches Some((e, d)) && e@ == ek && d@ == dk,
            Err(_) => r is None,
        },
{
    let keys = match profile {
        CryptoProfile::Showcase => X25519MlKem768.keygen(entropy),
        CryptoProfile::Cnsa20 => X25519MlKem1024.keygen(entropy),
    };
    match keys {
        Ok(k) => Some(k),
        Err(_) => None,
    }
}

/// Seals `buffer` in place with the KEM, KDF and AEAD `profile` selects.
fn seal_with_profile(
    profile: CryptoProfile,
    recipient: &EncapsulationKey,
    aad: &[u8],
    buffer: &mut [u8],
    entropy: &[u8],
) -> (r: Option<Sealed>)
    ensures
        match profile_seal(profile, recipient@, aad@, old(buffer)@, entropy@) {
            Some((kem_ct, n, t, c)) => r matches Some(s) && s.kem_ciphertext@ == kem_ct && s.nonce@
                == n && s.tag@ == t && final(buffer)@ == c,
            None => r is None,
        },
{
    let sealed = match profile {
        CryptoProfile::Showcase => {
            let kdf = Hkdf::<sha2::Sha256>::new();
            seal(&X25519MlKem768, &kdf, &Aes256Gcm, recipient, aad, buffer, entropy)
        },
        CryptoProfile::Cnsa20 => {
            let kdf = Hkdf::<sha2::Sha384>::new();
            seal(&X25519MlKem1024, &kdf, &Aes256Gcm, recipient, aad, buffer, entropy)
        },
    };
    match sealed {
        Ok(s) => {
            let _ = s.kem_ciphertext.as_slice();
            Some(s)
        },
        Err(_) => None,
    }
}

/// The `COSE_Encrypt` that frames a sealed payload: the profile's AEAD codepoint, the
/// nonce, `ciphertext || tag` as the content, and one recipient carrying the hybrid
/// KEM codepoint and the KEM ciphertext.
pub open spec fn framed(p: CryptoProfile, kem_ct: Seq<u8>, nonce: Seq<u8>, tag: Seq<u8>, ciphertext: Seq<u8>) -> EncryptView {
    EncryptView {
        alg: aead_codepoint(profile_aead(p)) as i64,
        nonce,
        ciphertext: ciphertext + tag,
        recipient: RecipientView {
            alg: kem_codepoint(profile_hybrid_kem(p)) as i64,
            kid: None,
            encapsulation: kem_ct,
        },
    }
}

/// What `seal_payload` gives: the first 96 bytes of `entropy` make the recipient key
/// pair, the rest drive the encapsulation; the result is the encoded `COSE_Encrypt`
/// and the decapsulation key that unseals it.
pub open spec fn sealed_payload(p: CryptoProfile, plaintext: Seq<u8>, aad: Seq<u8>, entropy: Seq<u8>) -> Option<(Seq<u8>, Seq<u8>)> {
    if entropy.len() < 96 {
        None
    } else {
        match recipient_keygen(p, entropy.subrange(0, 96)) {
            Err(_) => None,
            Ok((ek, dk)) => match profile_seal(p, ek, aad, plaintext, entropy.subrange(96, entropy.len() as int)) {
                None => None,
                Some((kem_ct, n, t, c)) => Some((ser_encrypt(framed(p, kem_ct, n, t, c)), dk)),
            },
        }
    }
}

/// A copy of `s`.
fn copy_bytes(s: &[u8]) -> (r: Vec<u8>)
    ensures
        r@ == s@,
{
    let mut out: Vec<u8> = Vec::new();
    let mut i: usize = 0;
    while i < s.len()
        invariant
            i <= s@.len(),
            out@ == s@.subrange(0, i as int),
        decreases s@.len() - i,
    {
        out.push(s[i]);
        i = i + 1;
    }
    assert(out@ =~= s@);
    out
}

/// Seals `plaintext` to a fresh recipient key pair under `profile` and frames it as an
/// encoded `COSE_Encrypt`. Returns the encoding and the decapsulation key that unseals
/// it, or `None` if key generation or sealing fails.
pub fn seal_payload(profile: CryptoProfile, plaintext: &[u8], aad: &[u8], entropy: &[u8]) -> (r: Option<(Vec<u8>, DecapsulationKey)>)
    ensures
        match sealed_payload(profile, plaintext@, aad@, entropy@) {
            Some((cose, dk)) => r matches Some((c, d)) && c@ == cose && d@ == dk,
            None => r is None,
        },
{
    if entropy.len() < 96 {
        return None;
    }
    let keygen_entropy = vstd::slice::slice_subrange(entropy, 0, 96);
    let (encapsulation_key, decapsulation_key) = match keygen_recipient(profile, keygen_entropy) {
        Some(k) => k,
        None => return None,
    };
    let mut buffer = copy_bytes(plaintext);
    let rest = vstd::slice::slice_subrange(entropy, 96, entropy.len());
    let sealed = match seal_with_profile(profile, &encapsulation_key, aad, buffer.as_mut_slice(), rest) {
        Some(s) => s,
        None => return None,
    };
    let tag = sealed.tag.as_slice();
    let mut i: usize = 0;
    let ghost body = buffer@;
    while i < tag.len()
        invariant
            i <= tag@.len(),
            buffer@ == body + tag@.subrange(0, i as int),
        decreases tag@.len() - i,
    {
        buffer.push(tag[i]);
        i = i + 1;
    }
    assert(tag@.subrange(0, tag@.len() as int) =~= tag@);
    let recipient = Recipient::new(
        AlgId::new(profile.hybrid_kem().cose_id() as i64),
        None,
        sealed.kem_ciphertext.as_slice(),
    );
    let cose = CoseEncrypt::new(
        AlgId::new(profile.aead().cose_id() as i64),
        sealed.nonce.as_slice(),
        buffer.as_slice(),
        recipient,
    );
    Some((cose.encode(), decapsulation_key))
}

/// Unseals `buffer` in place, selecting the KEM (and its pinned KDF) from the wire
/// codepoint; AES-256-GCM is the AEAD.
fn unseal_from_codepoint(
    kem_alg: AlgId,
    decapsulation_key: &DecapsulationKey,
    sealed: &Sealed,
    aad: &[u8],
    buffer: &mut [u8],
) -> (r: bool)
    requires
        kem_of_codepoint(kem_alg@ as i32) matches Some(k) && is_hybrid(k),
    ensures
        r ==> hybrid_recovers(
            kem_of_codepoint(kem_alg@ as i32)->0,
            decapsulation_key@,
            sealed.kem_ciphertext@,
            sealed.nonce@,
            sealed.tag@,
            aad@,
            old(buffer)@,
            final(buffer)@,
        ),
        forall|p: Seq<u8>|
            #[trigger] hybrid_recovers(
                kem_of_codepoint(kem_alg@ as i32)->0,
                decapsulation_key@,
                sealed.kem_ciphertext@,
                sealed.nonce@,
                sealed.tag@,
                aad@,
                old(buffer)@,
                p,
            ) ==> r && final(buffer)@ == p,
{
    let ghost before = buffer@;
    match KemAlg::from_cose_id(kem_alg.get() as i32) {
        Some(KemAlg::X25519MlKem768) => {
            let kdf = Hkdf::<sha2::Sha256>::new();
            let ok = unseal(&X25519MlKem768, &kdf, &Aes256Gcm, decapsulation_key, sealed, aad, buffer).is_ok();
            proof {
                assert forall|p: Seq<u8>|
                    #[trigger] hybrid_recovers(
                        KemAlg::X25519MlKem768,
                        decapsulation_key@,
                        sealed.kem_ciphertext@,
                        sealed.nonce@,
                        sealed.tag@,
                        aad@,
                        before,
                        p,
                    ) implies ok && buffer@ == p by {
                    assert(unseal_recovers(&X25519MlKem768, &kdf, &Aes256Gcm, decapsulation_key@, sealed.kem_ciphertext@, sealed.nonce@, sealed.tag@, aad@, before, p));
                }
                if ok {
                    assert(unseal_recovers(&X25519MlKem768, &kdf, &Aes256Gcm, decapsulation_key@, sealed.kem_ciphertext@, sealed.nonce@, sealed.tag@, aad@, before, buffer@));
                }
            }
            ok
        },
        Some(KemAlg::X25519MlKem1024) => {
            let kdf = Hkdf::<sha2::Sha384>::new();
            let ok = unseal(&X25519MlKem1024, &kdf, &Aes256Gcm, decapsulation_key, sealed, aad, buffer).is_ok();
            proof {
                assert forall|p: Seq<u8>|
                    #[trigger] hybrid_recovers(
                        KemAlg::X25519MlKem1024,
                        decapsulation_key@,
                        sealed.kem_ciphertext@,
                        sealed.nonce@,
                        sealed.tag@,
                        aad@,
                        before,
                        p,
                    ) implies ok && buffer@ == p by {
                    assert(unseal_recovers(&X25519MlKem1024, &kdf, &Aes256Gcm, decapsulation_key@, sealed.kem_ciphertext@, sealed.nonce@, sealed.tag@, aad@, before, p));
                }
                if ok {
                    assert(unseal_recovers(&X25519MlKem1024, &kdf, &Aes256Gcm, decapsulation_key@, sealed.kem_ciphertext@, sealed.nonce@, sealed.tag@, aad@, before, buffer@));
                }
            }
            ok
        },
        _ => false,
    }
}

/// Whether `cose_bytes` unseals, with `decapsulation_key`, to `plaintext`: the content
/// is `ciphertext || tag`, the recipient's codepoint names a hybrid KEM, and that hybrid
/// recovers `plaintext`.
pub open spec fn payload_recovers(cose_bytes: Seq<u8>, decapsulation_key: Seq<u8>, aad: Seq<u8>, plaintext: Seq<u8>) -> bool {
    match parse_encrypt(cose_bytes) {
        Some((v, _)) => {
            let n = v.ciphertext.len();
            &&& n >= TAG_LEN
            &&& v.recipient.encapsulation.len() <= CIPHERTEXT_MAX
            &&& v.nonce.len() <= NONCE_LEN
            &&& kem_of_codepoint(v.recipient.alg as i32) matches Some(k) && is_hybrid(k)
            &&& hybrid_recovers(
                kem_of_codepoint(v.recipient.alg as i32)->0,
                decapsulation_key,
                v.recipient.encapsulation,
                v.nonce,
                v.ciphertext.subrange(n - TAG_LEN, n as int),
                aad,
                v.ciphertext.subrange(0, n - TAG_LEN),
                plaintext,
            )
        },
        None => false,
    }
}

/// Whether, for what `seal_payload` draws from `entropy`, the KEM's decapsulation gives
/// back the secret its encapsulation produced.
pub open spec fn kem_agrees(p: CryptoProfile, entropy: Seq<u8>) -> bool {
    match recipient_keygen(p, entropy.subrange(0, 96)) {
        Ok((ek, dk)) => {
            let rest = entropy.subrange(96, entropy.len() as int);
            match p {
                CryptoProfile::Showcase => X25519MlKem768.encaps(ek, rest) matches Ok((kem_ct, ss))
                    ==> X25519MlKem768.decaps(dk, kem_ct) == Ok::<Seq<u8>, KemError>(ss),
                CryptoProfile::Cnsa20 => X25519MlKem1024.encaps(ek, rest) matches Ok((kem_ct, ss))
                    ==> X25519MlKem1024.decaps(dk, kem_ct) == Ok::<Seq<u8>, KemError>(ss),
            }
        },
        Err(_) => true,
    }
}

/// Unseals an encoded `COSE_Encrypt` with `decapsulation_key`, recovering the
/// plaintext. The KEM backend is chosen purely from the wire codepoint; `None` on any
/// failure, a codepoint that names no hybrid KEM among them. What `seal_payload` produced unseals to its plaintext whenever the KEM's
/// two sides agree on the secret.
pub fn unseal_payload(cose_bytes: &[u8], decapsulation_key: &DecapsulationKey, aad: &[u8]) -> (r: Option<Vec<u8>>)
    ensures
        r matches Some(p) ==> payload_recovers(cose_bytes@, decapsulation_key@, aad@, p@),
        forall|p: Seq<u8>|
            #[trigger] payload_recovers(cose_bytes@, decapsulation_key@, aad@, p) ==> (r matches Some(v)
                && v@ == p),
        forall|prof: CryptoProfile, pt: Seq<u8>, e: Seq<u8>|
            #[trigger] sealed_payload(prof, pt, aad@, e) == Some((cose_bytes@, decapsulation_key@))
                && kem_agrees(prof, e) ==> (r matches Some(v) && v@ == pt),
{
    let total: usize = cose_bytes.len();
    proof {
        assert forall|prof: CryptoProfile, pt: Seq<u8>, e: Seq<u8>|
            #[trigger] sealed_payload(prof, pt, aad@, e) == Some((cose_bytes@, decapsulation_key@))
                && kem_agrees(prof, e) implies payload_recovers(cose_bytes@, decapsulation_key@, aad@, pt) by {
            lemma_sealed_payload_recovers(cose_bytes@, decapsulation_key@, aad@, prof, pt, e);
        }
    }
    let cose = match CoseEncrypt::decode(cose_bytes) {
        Ok(c) => c,
        Err(_) => return None,
    };
    let recipient = cose.recipient();
    let body = cose.ciphertext();
    if body.len() < TAG_LEN {
        return None;
    }
    let split = body.len() - TAG_LEN;
    let ciphertext = vstd::slice::slice_subrange(body, 0, split);
    let tag = vstd::slice::slice_subrange(body, split, body.len());
    let kem_ciphertext = match Ciphertext::try_from(recipient.encapsulation()) {
        Ok(c) => c,
        Err(_) => return None,
    };
    let nonce = match Nonce::try_from(cose.nonce()) {
        Ok(n) => n,
        Err(_) => return None,
    };
    let tag = match Tag::try_from(tag) {
        Ok(t) => t,
        Err(_) => return None,
    };
    match KemAlg::from_cose_id(recipient.kem_alg().get() as i32) {
        Some(KemAlg::X25519MlKem768) => {},
        Some(KemAlg::X25519MlKem1024) => {},
        _ => return None,
    }
    let sealed = Sealed { kem_ciphertext, nonce, tag };
    let mut buffer = copy_bytes(ciphertext);
    let ghost before = buffer@;
    let ok = unseal_from_codepoint(recipient.kem_alg(), decapsulation_key, &sealed, aad, buffer.as_mut_slice());
    proof {
        let v = cose@;
        let n = v.ciphertext.len();
        assert(before == v.ciphertext.subrange(0, n - TAG_LEN));
        assert(sealed.tag@ == v.ciphertext.subrange(n - TAG_LEN, n as int));
        assert forall|p: Seq<u8>|
            #[trigger] payload_recovers(cose_bytes@, decapsulation_key@, aad@, p) implies ok && buffer@ == p by {
            assert(hybrid_recovers(
                kem_of_codepoint(v.recipient.alg as i32)->0,
                decapsulation_key@,
                sealed.kem_ciphertext@,
                sealed.nonce@,
                sealed.tag@,
                aad@,
                before,
                p,
            ));
        }
    }
    if ok {
        Some(buffer)
    } else {
        None
    }
}

/// What `seal_payload` produced unseals to its plaintext when the KEM agrees.
proof fn lemma_sealed_payload_recovers(
    cose_bytes: Seq<u8>,
    decapsulation_key: Seq<u8>,
    aad: Seq<u8>,
    prof: CryptoProfile,
    pt: Seq<u8>,
    e: Seq<u8>,
)
    requires
        cose_bytes.len() <= usize::MAX,
        sealed_payload(prof, pt, aad, e) == Some((cose_bytes, decapsulation_key)),
        kem_agrees(prof, e),
    ensures
        payload_recovers(cose_bytes, decapsulation_key, aad, pt),
{
    let (ek, dk) = recipient_keygen(prof, e.subrange(0, 96))->Ok_0;
    let rest = e.subrange(96, e.len() as int);
    let (kem_ct, n, t, c) = profile_seal(prof, ek, aad, pt, rest)->Some_0;
    let v = framed(prof, kem_ct, n, t, c);
    assert(cose_bytes == ser_encrypt(v));
    lemma_encrypt_roundtrip(v, Seq::empty());
    assert(ser_encrypt(v) + Seq::<u8>::empty() =~= ser_encrypt(v));
    assert(parse_encrypt(cose_bytes) == Some((v, cose_bytes.len() as int)));
    let m = v.ciphertext.len();
    assert(v.ciphertext.subrange(m - TAG_LEN, m as int) =~= t);
    assert(v.ciphertext.subrange(0, m - TAG_LEN) =~= c);
    match prof {
        CryptoProfile::Showcase => {
            assert(kem_of_codepoint(v.recipient.alg as i32) == Some(KemAlg::X25519MlKem768));
            let (kc, ss) = X25519MlKem768.encaps(ek, rest)->Ok_0;
            assert(X25519MlKem768.decaps(dk, kem_ct) == Ok::<Seq<u8>, KemError>(ss));
            assert(unseal_recovers(&X25519MlKem768, &hkdf_sha256(), &Aes256Gcm, dk, kem_ct, n, t, aad, c, pt));
        },
        CryptoProfile::Cnsa20 => {
            assert(kem_of_codepoint(v.recipient.alg as i32) == Some(KemAlg::X25519MlKem1024));
            let (kc, ss) = X25519MlKem1024.encaps(ek, rest)->Ok_0;
            assert(X25519MlKem1024.decaps(dk, kem_ct) == Ok::<Seq<u8>, KemError>(ss));
            assert(unseal_recovers(&X25519MlKem1024, &hkdf_sha384(), &Aes256Gcm, dk, kem_ct, n, t, aad, c, pt));
        },
    }
}

/// What `seal_payload` produced reads back as the container it framed, under the
/// profile's hybrid KEM codepoint.
pub proof fn lemma_sealed_payload_parses(
    cose_bytes: Seq<u8>,
    decapsulation_key: Seq<u8>,
    aad: Seq<u8>,
    prof: CryptoProfile,
    pt: Seq<u8>,
    e: Seq<u8>,
)
    requires
        cose_bytes.len() <= usize::MAX,
        sealed_payload(prof, pt, aad, e) == Some((cose_bytes, decapsulation_key)),
    ensures
        parse_encrypt(cose_bytes) matches Some((v, _)) && kem_of_codepoint(v.recipient.alg as i32)
            == Some(profile_hybrid_kem(prof)),
{
    let (ek, dk) = recipient_keygen(prof, e.subrange(0, 96))->Ok_0;
    let rest = e.subrange(96, e.len() as int);
    let (kem_ct, n, t, c) = profile_seal(prof, ek, aad, pt, rest)->Some_0;
    let v = framed(prof, kem_ct, n, t, c);
    lemma_encrypt_roundtrip(v, Seq::empty());
    assert(ser_encrypt(v) + Seq::<u8>::empty() =~= ser_encrypt(v));
    match prof {
        CryptoProfile::Showcase => {
            assert(kem_of_codepoint(v.recipient.alg as i32) == Some(KemAlg::X25519MlKem768));
        },
        CryptoProfile::Cnsa20 => {
            assert(kem_of_codepoint(v.recipient.alg as i32) == Some(KemAlg::X25519MlKem1024));
        },
    }
}

} // verus!
