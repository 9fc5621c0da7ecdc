//! Sign a SUIT manifest as a `COSE_Sign1` and verify it, with the signature backend
//! selected by the integer COSE codepoint.
//!
//! The sign side picks the algorithm from the profile; the verify side picks it purely
//! from the codepoint carried in the `COSE_Sign1`. The general signer is ML-DSA.
use vstd::prelude::*;
use crate::crypto::alg::{sig_codepoint, sig_of_codepoint, SigAlg};
use crate::crypto::error::{SignError, VerifyError};
use crate::crypto::mldsa::{
    mldsa65_signature, mldsa65_verdict, mldsa65_verifying_key, mldsa87_signature,
    mldsa87_verdict, mldsa87_verifying_key, mldsa_keygen, mldsa_sign, MlDsa,
};
use crate::crypto::profile::{profile_general_sig, CryptoProfile};
use crate::crypto::sign::{Signature, Signer, SigningKey, Verifier, VerifyingKey, SIGNATURE_MAX};
use crate::wire::alg::AlgId;
use crate::wire::cbor::ser_head;
use crate::wire::cose::{
    lemma_sign1_roundtrip, parse_sign1, ser_sig_structure, ser_sign1, CoseSign1, Payload,
    SigStructure, Sign1View,
};
use crate::wire::manifest::{ser_manifest, Manifest, ManifestView};

verus! {

/// Whether `alg` is one of the general (ML-DSA) signers.
pub open spec fn is_general_signer(alg: SigAlg) -> bool {
    alg == SigAlg::MlDsa65 || alg == SigAlg::MlDsa87
}

/// The key pair the general signer `alg` derives from `entropy`.
pub open spec fn signer_keygen(alg: SigAlg, entropy: Seq<u8>) -> Result<(Seq<u8>, Seq<u8>), SignError> {
    match alg {
        SigAlg::MlDsa65 => mldsa_keygen(|s: Seq<u8>| mldsa65_verifying_key(s), entropy),
        SigAlg::MlDsa87 => mldsa_keygen(|s: Seq<u8>| mldsa87_verifying_key(s), entropy),
        SigAlg::HssLmsSha256 => Err(SignError::UnsupportedAlgorithm),
    }
}

/// What the general signer `alg` gives for `message` with `key`.
pub open spec fn signer_sign(alg: SigAlg, key: Seq<u8>, message: Seq<u8>) -> Result<Seq<u8>, SignError> {
    match alg {
        SigAlg::MlDsa65 => mldsa_sign(|k: Seq<u8>, m: Seq<u8>| mldsa65_signature(k, m), key, message),
        SigAlg::MlDsa87 => mldsa_sign(|k: Seq<u8>, m: Seq<u8>| mldsa87_signature(k, m), key, message),
        SigAlg::HssLmsSha256 => Err(SignError::UnsupportedAlgorithm),
    }
}

/// The verdict of the general verifier `alg`.
pub open spec fn signer_verdict(alg: SigAlg, key: Seq<u8>, message: Seq<u8>, signature: Seq<u8>) -> Result<(), VerifyError> {
    match alg {
        SigAlg::MlDsa65 => mldsa65_verdict(key, message, signature),
        SigAlg::MlDsa87 => mldsa87_verdict(key, message, signature),
        SigAlg::HssLmsSha256 => Err(VerifyError::UnsupportedAlgorithm),
    }
}

/// Generates a key pair for the signer `alg` (the sign side, driven by the profile);
/// `None` if key generation fails.
fn make_signer(alg: SigAlg, entropy: &[u8]) -> (r: Option<(SigningKey, VerifyingKey)>)
    requires
        is_general_signer(alg),
    ensures
        match signer_keygen(alg, entropy@) {
            Ok((sk, vk)) => r matches Some((s, v)) && s@ == sk && v@ == vk,
            Err(_) => r is None,
        },
{
    let keys = match alg {
        SigAlg::MlDsa65 => MlDsa::<ml_dsa::MlDsa65>::new().keygen(entropy),
        SigAlg::MlDsa87 => MlDsa::<ml_dsa::MlDsa87>::new().keygen(entropy),
        SigAlg::HssLmsSha256 => Err(SignError::UnsupportedAlgorithm),
    };
    match keys {
        Ok(k) => Some(k),
        Err(_) => None,
    }
}

/// Signs `message` with the signer `alg`.
fn sign_with(alg: SigAlg, key: &SigningKey, message: &[u8]) -> (r: Option<Signature>)
    requires
        is_general_signer(alg),
    ensures
        match signer_sign(alg, key@, message@) {
            Ok(s) => r matches Some(sig) && sig@ == s,
            Err(_) => r is None,
        },
{
    let signature = match alg {
        SigAlg::MlDsa65 => MlDsa::<ml_dsa::MlDsa65>::new().sign(key, message),
        SigAlg::MlDsa87 => MlDsa::<ml_dsa::MlDsa87>::new().sign(key, message),
        SigAlg::HssLmsSha256 => Err(SignError::UnsupportedAlgorithm),
    };
    match signature {
        Ok(s) => Some(s),
        Err(_) => None,
    }
}

/// The `COSE_Sign1` and the verifying key that signing `manifest` under `profile`
/// gives: the signature is over the `Sig_structure` of the encoded manifest, which
/// travels attached; `None` if key generation or signing fails.
pub open spec fn signed_view(p: CryptoProfile, m: ManifestView, entropy: Seq<u8>) -> Option<(Sign1View, Seq<u8>)> {
    let alg = profile_general_sig(p);
    let alg_id = sig_codepoint(alg) as i64;
    let manifest_bytes = ser_manifest(m);
    match signer_keygen(alg, entropy) {
        Err(_) => None,
        Ok((sk, vk)) => match signer_sign(alg, sk, ser_sig_structure(alg_id, Seq::empty(), manifest_bytes)) {
            Err(_) => None,
            Ok(sig) => Some(
                (Sign1View { alg: alg_id, kid: None, payload: Some(manifest_bytes), signature: sig }, vk),
            ),
        },
    }
}

/// The encoded `COSE_Sign1` and the verifying key that signing `manifest` under
/// `profile` gives.
pub open spec fn signed_manifest(p: CryptoProfile, m: ManifestView, entropy: Seq<u8>) -> Option<(Seq<u8>, Seq<u8>)> {
    match signed_view(p, m, entropy) {
        Some((v, vk)) => Some((ser_sign1(v), vk)),
        None => None,
    }
}

/// Signs `manifest` under `profile`'s signature algorithm; returns the encoded
/// `COSE_Sign1` and the verifying key needed to check it, or `None` if key generation
/// (from the first 32 bytes of `entropy`) or signing fails.
pub fn sign_manifest(profile: CryptoProfile, manifest: &Manifest, entropy: &[u8]) -> (r: Option<(Vec<u8>, VerifyingKey)>)
    ensures
        match signed_manifest(profile, manifest@, entropy@) {
            Some((cose, vk)) => r matches Some((c, v)) && c@ == cose && v@ == vk,
            None => r is None,
        },
{
    let alg = profile.general_sig();
    let alg_id = AlgId::new(alg.cose_id() as i64);
    let manifest_bytes = manifest.encode();
    let (signing_key, verifying_key) = match make_signer(alg, entropy) {
        Some(k) => k,
        None => return None,
    };
    let empty: [u8; 0] = [];
    let to_be_signed = SigStructure::new(alg_id, &empty, manifest_bytes.as_slice()).encode();
    proof {
        assert(empty@ =~= Seq::<u8>::empty());
    }
    let signature = match sign_with(alg, &signing_key, to_be_signed.as_slice()) {
        Some(s) => s,
        None => return None,
    };
    let cose = CoseSign1::new(alg_id, None, Payload::Attached(manifest_bytes.as_slice()), signature.as_slice());
    Some((cose.encode(), verifying_key))
}

/// Whether verifying `cose_bytes` panics: it reads as a `COSE_Sign1` with an attached
/// payload and a signature that fits, under a codepoint that names no general signer.
pub open spec fn verify_manifest_panics(cose_bytes: Seq<u8>) -> bool {
    match parse_sign1(cose_bytes) {
        Some((v, _)) => v.payload is Some && v.signature.len() <= SIGNATURE_MAX && !(sig_of_codepoint(
            v.alg as i32,
        ) matches Some(a) && is_general_signer(a)),
        None => false,
    }
}

/// Whether `cose_bytes` is a `COSE_Sign1` with an attached payload whose signature
/// the verifier its codepoint names accepts under `key`.
pub open spec fn manifest_verifies(cose_bytes: Seq<u8>, key: Seq<u8>) -> bool {
    match parse_sign1(cose_bytes) {
        Some((v, _)) => match v.payload {
            Some(manifest_bytes) => v.signature.len() <= SIGNATURE_MAX && signer_verdict(
                sig_of_codepoint(v.alg as i32)->0,
                key,
                ser_sig_structure(v.alg, Seq::empty(), manifest_bytes),
                v.signature,
            ) is Ok,
            None => false,
        },
        None => false,
    }
}

/// Verifies `signature` over `message` with the verifier the codepoint names (the
/// verify side).
fn verify_with_codepoint(alg_id: AlgId, key: &VerifyingKey, message: &[u8], signature: &Signature) -> (r: bool)
    requires
        sig_of_codepoint(alg_id@ as i32) matches Some(a) && is_general_signer(a),
    ensures
        r == (signer_verdict(sig_of_codepoint(alg_id@ as i32)->0, key@, message@, signature@) is Ok),
        sig_of_codepoint(alg_id@ as i32) == Some(SigAlg::MlDsa65) ==> forall|seed: Seq<u8>|
            #![trigger mldsa65_signature(seed, message@), mldsa65_verifying_key(seed)]
            seed.len() == 32 && mldsa65_signature(seed, message@) == Some(signature@)
                && mldsa65_verifying_key(seed) == key@ ==> r,
        sig_of_codepoint(alg_id@ as i32) == Some(SigAlg::MlDsa87) ==> forall|seed: Seq<u8>|
            #![trigger mldsa87_signature(seed, message@), mldsa87_verifying_key(seed)]
            seed.len() == 32 && mldsa87_signature(seed, message@) == Some(signature@)
                && mldsa87_verifying_key(seed) == key@ ==> r,
{
    let id = alg_id.get() as i32;
    match SigAlg::from_cose_id(id) {
        Some(SigAlg::MlDsa65) => MlDsa::<ml_dsa::MlDsa65>::new().verify(key, message, signature).is_ok(),
        Some(SigAlg::MlDsa87) => MlDsa::<ml_dsa::MlDsa87>::new().verify(key, message, signature).is_ok(),
        _ => false,
    }
}

/// Verifies an encoded `COSE_Sign1` against `verifying_key`. The verifier backend is
/// chosen purely from the codepoint carried in the structure. What `sign_manifest`
/// produced verifies under the key it returned.
pub fn verify_manifest(cose_bytes: &[u8], verifying_key: &VerifyingKey) -> (r: bool)
    requires
        !verify_manifest_panics(cose_bytes@),
    ensures
        r == manifest_verifies(cose_bytes@, verifying_key@),
        forall|p: CryptoProfile, m: ManifestView, e: Seq<u8>|
            #[trigger] signed_manifest(p, m, e) == Some((cose_bytes@, verifying_key@)) ==> r,
{
    let total: usize = cose_bytes.len();
    assert(cose_bytes@.len() == total);
    let cose = match CoseSign1::decode(cose_bytes) {
        Ok(c) => c,
        Err(_) => {
            proof {
                assert forall|p: CryptoProfile, m: ManifestView, e: Seq<u8>|
                    #[trigger] signed_manifest(p, m, e) == Some((cose_bytes@, verifying_key@)) implies false by {
                    lemma_signed_manifest_parses(cose_bytes@, verifying_key@, p, m, e);
                }
            }
            return false;
        },
    };
    let manifest_bytes = match cose.payload() {
        Payload::Attached(b) => b,
        Payload::Detached => {
            proof {
                assert forall|p: CryptoProfile, m: ManifestView, e: Seq<u8>|
                    #[trigger] signed_manifest(p, m, e) == Some((cose_bytes@, verifying_key@)) implies false by {
                    lemma_signed_manifest_parses(cose_bytes@, verifying_key@, p, m, e);
                }
            }
            return false;
        },
    };
    let signature = match Signature::try_from(cose.signature()) {
        Ok(s) => s,
        Err(_) => {
            proof {
                assert forall|p: CryptoProfile, m: ManifestView, e: Seq<u8>|
                    #[trigger] signed_manifest(p, m, e) == Some((cose_bytes@, verifying_key@)) implies false by {
                    lemma_signed_manifest_parses(cose_bytes@, verifying_key@, p, m, e);
                }
            }
            return false;
        },
    };
    let empty: [u8; 0] = [];
    let to_be_signed = SigStructure::new(cose.alg(), &empty, manifest_bytes).encode();
    proof {
        assert(empty@ =~= Seq::<u8>::empty());
    }
    let r = verify_with_codepoint(cose.alg(), verifying_key, to_be_signed.as_slice(), &signature);
    proof {
        assert forall|p: CryptoProfile, m: ManifestView, e: Seq<u8>|
            #[trigger] signed_manifest(p, m, e) == Some((cose_bytes@, verifying_key@)) implies r by {
            lemma_signed_manifest_parses(cose_bytes@, verifying_key@, p, m, e);
            let seed = e.subrange(0, 32);
            if profile_general_sig(p) == SigAlg::MlDsa65 {
                assert(mldsa65_signature(seed, to_be_signed@) == Some(signature@));
                assert(mldsa65_verifying_key(seed) == verifying_key@);
            } else {
                assert(mldsa87_signature(seed, to_be_signed@) == Some(signature@));
                assert(mldsa87_verifying_key(seed) == verifying_key@);
            }
        }
    }
    r
}

/// What `sign_manifest` produced reads back as the `COSE_Sign1` it encoded.
pub proof fn lemma_signed_manifest_parses(cose_bytes: Seq<u8>, key: Seq<u8>, p: CryptoProfile, m: ManifestView, e: Seq<u8>)
    requires
        cose_bytes.len() <= usize::MAX,
        signed_manifest(p, m, e) == Some((cose_bytes, key)),
    ensures
        signed_view(p, m, e) is Some,
        signed_view(p, m, e)->Some_0.1 == key,
        parse_sign1(cose_bytes) == Some((signed_view(p, m, e)->Some_0.0, cose_bytes.len() as int)),
        sig_of_codepoint(signed_view(p, m, e)->Some_0.0.alg as i32) == Some(profile_general_sig(p)),
{
    let v = signed_view(p, m, e)->Some_0.0;
    lemma_sign1_roundtrip(v, Seq::empty());
    assert(ser_sign1(v) + Seq::<u8>::empty() =~= ser_sign1(v));
}

} // verus!
