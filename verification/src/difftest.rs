//! The differential test harness: the known-answer-test parser, and the comparison of
//! this library's ML-DSA and ML-KEM backends with independent reference
//! implementations over the same inputs. Any disagreement is a finding.

pub mod kat;

use vstd::prelude::*;
use crate::crypto::kem::{Ciphertext, Kem};
use crate::crypto::mldsa::{mldsa65_verdict, mldsa87_verdict, MlDsa};
use crate::crypto::mlkem::{
    mlkem1024_decapsulate, mlkem1024_encapsulation_key, mlkem768_decapsulate,
    mlkem768_encapsulation_key, mlkem_decaps, mlkem_keygen, MlKem, MlKem1024, MlKem768,
};
use crate::crypto::kem::CIPHERTEXT_MAX;
use crate::crypto::lms::{lms_layout_ok, lms_sha256_256_accepts, Lms};
use crate::crypto::sign::{Signature, Verifier, VerifyingKey, SIGNATURE_MAX, VERIFYING_KEY_MAX};

verus! {

/// The ML-DSA parameter set under test.
#[derive(Debug, Clone, Copy, PartialEq, Eq, Structural)]
pub enum MlDsaSet {
    /// ML-DSA-65 (showcase profile).
    MlDsa65,
    /// ML-DSA-87 (CNSA 2.0 profile).
    MlDsa87,
}

/// An independent ML-DSA verifier: the reference side of the differential.
///
/// `verify` returns whether the reference accepts. A wrong-length key or signature is a
/// rejection, not a panic, so malformed-input vectors compare cleanly.
pub trait MlDsaReference {
    /// Whether the reference accepts `signature` over `message` under `public_key`.
    fn verify(&self, set: MlDsaSet, public_key: &[u8], message: &[u8], signature: &[u8]) -> bool;
}

/// What this library's ML-DSA backend answers: accept exactly when the key and the
/// signature fit their value types and the backend verifies.
pub open spec fn our_verify_spec(set: MlDsaSet, public_key: Seq<u8>, message: Seq<u8>, signature: Seq<u8>) -> bool {
    public_key.len() <= VERIFYING_KEY_MAX && signature.len() <= SIGNATURE_MAX && match set {
        MlDsaSet::MlDsa65 => mldsa65_verdict(public_key, message, signature) is Ok,
        MlDsaSet::MlDsa87 => mldsa87_verdict(public_key, message, signature) is Ok,
    }
}

/// Verifies with this library's ML-DSA backend, the implementation under test. A
/// wrong-length key or signature is a rejection, mirroring the reference.
pub fn our_verify(set: MlDsaSet, public_key: &[u8], message: &[u8], signature: &[u8]) -> (r: bool)
    ensures
        r == our_verify_spec(set, public_key@, message@, signature@),
{
    let key = match VerifyingKey::try_from(public_key) {
        Ok(k) => k,
        Err(_) => return false,
    };
    let sig = match Signature::try_from(signature) {
        Ok(s) => s,
        Err(_) => return false,
    };
    match set {
        MlDsaSet::MlDsa65 => MlDsa::<ml_dsa::MlDsa65>::new().verify(&key, message, &sig).is_ok(),
        MlDsaSet::MlDsa87 => MlDsa::<ml_dsa::MlDsa87>::new().verify(&key, message, &sig).is_ok(),
    }
}

/// The two backends disagreed on one input: the differential found a defect.
#[derive(Debug, Clone, Copy, PartialEq, Eq, Structural)]
pub struct Mismatch {
    /// What this library's backend answered (true = accept).
    pub ours: bool,
    /// What the reference answered (true = accept).
    pub reference: bool,
}

/// The outcome of comparing two verdicts: `Ok` with the shared answer when they agree,
/// else the mismatch carrying both.
pub open spec fn verdicts_compared(ours: bool, theirs: bool) -> Result<bool, Mismatch> {
    if ours == theirs {
        Ok(ours)
    } else {
        Err(Mismatch { ours, reference: theirs })
    }
}

/// Compares two verdicts: `Ok` with the shared answer when they agree, else the
/// mismatch.
pub fn compare_verdicts(ours: bool, theirs: bool) -> (r: Result<bool, Mismatch>)
    ensures
        r == verdicts_compared(ours, theirs),
{
    if ours == theirs {
        Ok(ours)
    } else {
        Err(Mismatch { ours, reference: theirs })
    }
}

/// Runs this library's backend and `reference` on the same verify input and compares
/// them: `Ok(accepted)` means they agree (with their shared answer); `Err(Mismatch)`
/// means they disagree, which is a finding.
///
/// The outcome compares this library's answer with an answer the reference's method
/// gives when called on exactly these inputs (the reference's trait states nothing of
/// its answer, so the contract names it as a possible result of that call).
pub fn differential_verify<R: MlDsaReference>(
    reference: &R,
    set: MlDsaSet,
    public_key: &[u8],
    message: &[u8],
    signature: &[u8],
) -> (r: Result<bool, Mismatch>)
    ensures
        exists|theirs: bool|
            call_ensures(R::verify, (reference, set, public_key, message, signature), theirs)
                && r == verdicts_compared(our_verify_spec(set, public_key@, message@, signature@), theirs),
{
    let ours = our_verify(set, public_key, message, signature);
    let ask = R::verify;
    let theirs = ask(reference, set, public_key, message, signature);
    assert(call_ensures(R::verify, (reference, set, public_key, message, signature), theirs));
    compare_verdicts(ours, theirs)
}

/// The ML-KEM parameter set under test.
#[derive(Debug, Clone, Copy, PartialEq, Eq, Structural)]
pub enum MlKemSet {
    /// ML-KEM-768 (showcase profile).
    MlKem768,
    /// ML-KEM-1024 (CNSA 2.0 profile).
    MlKem1024,
}

/// An independent ML-KEM decapsulator: the reference side of the differential.
///
/// `decapsulate` derives the key pair from `seed` (the same seed this library uses),
/// then recovers the shared secret for `ciphertext`. A wrong-length seed or ciphertext
/// is `None`.
pub trait MlKemReference {
    /// The shared secret from decapsulating `ciphertext` under the key pair derived from
    /// `seed`, or `None` if an input is the wrong length.
    fn decapsulate(&self, set: MlKemSet, seed: &[u8], ciphertext: &[u8]) -> Option<Vec<u8>>;
}

/// What this library's ML-KEM backend gives: the key pair is derived from `seed`, then
/// `ciphertext` is decapsulated; any failure is `None`.
pub open spec fn our_decapsulate_spec(set: MlKemSet, seed: Seq<u8>, ciphertext: Seq<u8>) -> Option<Seq<u8>> {
    if ciphertext.len() > CIPHERTEXT_MAX {
        None
    } else {
        let keys = match set {
            MlKemSet::MlKem768 => mlkem_keygen(|d: Seq<u8>, z: Seq<u8>| mlkem768_encapsulation_key(d, z), seed),
            MlKemSet::MlKem1024 => mlkem_keygen(|d: Seq<u8>, z: Seq<u8>| mlkem1024_encapsulation_key(d, z), seed),
        };
        match keys {
            Err(_) => None,
            Ok((_, dk)) => {
                let secret = match set {
                    MlKemSet::MlKem768 => mlkem_decaps(
                        |d: Seq<u8>, z: Seq<u8>, ct: Seq<u8>| mlkem768_decapsulate(d, z, ct),
                        dk,
                        ciphertext,
                    ),
                    MlKemSet::MlKem1024 => mlkem_decaps(
                        |d: Seq<u8>, z: Seq<u8>, ct: Seq<u8>| mlkem1024_decapsulate(d, z, ct),
                        dk,
                        ciphertext,
                    ),
                };
                match secret {
                    Ok(ss) => Some(ss),
                    Err(_) => None,
                }
            },
        }
    }
}

/// Decapsulates with this library's ML-KEM backend, the implementation under test:
/// derives the key pair from `seed`, then recovers the shared secret for `ciphertext`.
/// A wrong-length seed or ciphertext is `None`, mirroring the reference.
pub fn our_decapsulate(set: MlKemSet, seed: &[u8], ciphertext: &[u8]) -> (r: Option<Vec<u8>>)
    ensures
        match our_decapsulate_spec(set, seed@, ciphertext@) {
            Some(ss) => r matches Some(v) && v@ == ss,
            None => r is None,
        },
{
    let ct = match Ciphertext::try_from(ciphertext) {
        Ok(c) => c,
        Err(_) => return None,
    };
    let secret = match set {
        MlKemSet::MlKem768 => {
            let backend = MlKem::<MlKem768>::new();
            let (_encapsulation_key, decapsulation_key) = match backend.keygen(seed) {
                Ok(k) => k,
                Err(_) => return None,
            };
            backend.decapsulate(&decapsulation_key, &ct)
        },
        MlKemSet::MlKem1024 => {
            let backend = MlKem::<MlKem1024>::new();
            let (_encapsulation_key, decapsulation_key) = match backend.keygen(seed) {
                Ok(k) => k,
                Err(_) => return None,
            };
            backend.decapsulate(&decapsulation_key, &ct)
        },
    };
    match secret {
        Ok(s) => Some(copy_bytes(s.as_slice())),
        Err(_) => None,
    }
}

/// A copy of `s`.
fn copy_bytes(s: &[u8]) -> (r: Vec<u8>)
    ensures
        r@ == s@,
{
    let mut out: Vec<u8> = Vec::new();
    let mut i: usize = 0;
    while i < s.len()
        invariant
            i <= s@.len(),
            out@ == s@.subrange(0, i as int),
        decreases s@.len() - i,
    {
        out.push(s[i]);
        i = i + 1;
    }
    assert(out@ =~= s@);
    out
}

/// The two backends produced different shared secrets for the same input: a finding.
#[derive(Debug, Clone, PartialEq, Eq)]
pub struct KemMismatch {
    /// What this library's backend produced (`None` = it treated the input as malformed).
    pub ours: Option<Vec<u8>>,
    /// What the reference produced.
    pub reference: Option<Vec<u8>>,
}

/// The bytes of an optional secret.
pub open spec fn opt_bytes(v: Option<Vec<u8>>) -> Option<Seq<u8>> {
    match v {
        Some(b) => Some(b@),
        None => None,
    }
}

/// Whether two optional byte strings are equal.
fn opt_bytes_eq(a: &Option<Vec<u8>>, b: &Option<Vec<u8>>) -> (r: bool)
    ensures
        r == (opt_bytes(*a) == opt_bytes(*b)),
{
    match (a, b) {
        (Some(x), Some(y)) => crate::difftest::kat::bytes_eq(x.as_slice(), y.as_slice()),
        (None, None) => true,
        _ => false,
    }
}

/// Whether `r` is the outcome of comparing two decapsulation outcomes: `Ok` with the
/// shared outcome when they agree, else the mismatch carrying both.
pub open spec fn secrets_compared(
    r: Result<Option<Vec<u8>>, KemMismatch>,
    ours: Option<Seq<u8>>,
    theirs: Option<Seq<u8>>,
) -> bool {
    if ours == theirs {
        r matches Ok(v) && opt_bytes(v) == ours
    } else {
        r matches Err(m) && opt_bytes(m.ours) == ours && opt_bytes(m.reference) == theirs
    }
}

/// Compares two decapsulation outcomes: `Ok` with the shared outcome when they agree,
/// else the mismatch.
pub fn compare_secrets(ours: Option<Vec<u8>>, theirs: Option<Vec<u8>>) -> (r: Result<Option<Vec<u8>>, KemMismatch>)
    ensures
        secrets_compared(r, opt_bytes(ours), opt_bytes(theirs)),
{
    if opt_bytes_eq(&ours, &theirs) {
        Ok(ours)
    } else {
        Err(KemMismatch { ours, reference: theirs })
    }
}

/// Runs this library's backend and `reference` on the same decapsulation input and
/// compares them: `Ok(secret)` means they agree (the shared secret, or `None` if both
/// rejected the input as malformed); `Err(KemMismatch)` means they disagree.
///
/// The outcome compares this library's answer with an answer the reference's method
/// gives when called on exactly these inputs (the reference's trait states nothing of
/// its answer, so the contract names it as a possible result of that call).
pub fn differential_decapsulate<R: MlKemReference>(
    reference: &R,
    set: MlKemSet,
    seed: &[u8],
    ciphertext: &[u8],
) -> (r: Result<Option<Vec<u8>>, KemMismatch>)
    ensures
        exists|theirs: Option<Vec<u8>>|
            call_ensures(R::decapsulate, (reference, set, seed, ciphertext), theirs)
                && secrets_compared(r, our_decapsulate_spec(set, seed@, ciphertext@), opt_bytes(theirs)),
{
    let ours = our_decapsulate(set, seed, ciphertext);
    let ask = R::decapsulate;
    let theirs = ask(reference, set, seed, ciphertext);
    let ghost answer = theirs;
    assert(call_ensures(R::decapsulate, (reference, set, seed, ciphertext), answer));
    compare_secrets(ours, theirs)
}

/// An independent LMS/HSS verifier: the reference side of the differential.
///
/// A wrong-length key or signature is a rejection, not a panic.
pub trait LmsReference {
    /// Whether the reference accepts `signature` over `message` under `public_key`.
    fn verify(&self, public_key: &[u8], message: &[u8], signature: &[u8]) -> bool;
}

/// What this library's LMS/HSS backend (showcase chain, SHA-256/256) answers: accept
/// exactly when the key and the signature fit their value types and the backend verifies.
pub open spec fn our_lms_verify_spec(public_key: Seq<u8>, message: Seq<u8>, signature: Seq<u8>) -> bool {
    public_key.len() <= VERIFYING_KEY_MAX && signature.len() <= SIGNATURE_MAX
        && lms_layout_ok(signature, public_key, 32) && lms_sha256_256_accepts(message, signature, public_key)
}

/// Verifies with this library's LMS/HSS backend over the showcase chain, the
/// implementation under test. A wrong-length key or signature is a rejection, mirroring
/// the reference.
pub fn our_lms_verify(public_key: &[u8], message: &[u8], signature: &[u8]) -> (r: bool)
    ensures
        r == our_lms_verify_spec(public_key@, message@, signature@),
{
    let key = match VerifyingKey::try_from(public_key) {
        Ok(k) => k,
        Err(_) => return false,
    };
    let sig = match Signature::try_from(signature) {
        Ok(s) => s,
        Err(_) => return false,
    };
    Lms::<hbs_lms::Sha256_256>::new().verify(&key, message, &sig).is_ok()
}

/// Runs this library's LMS/HSS backend and `reference` on the same verify input and
/// compares them: `Ok(accepted)` means they agree (with their shared answer);
/// `Err(Mismatch)` means they disagree, which is a finding.
///
/// The outcome compares this library's answer with an answer the reference's method
/// gives when called on exactly these inputs (the reference's trait states nothing of
/// its answer, so the contract names it as a possible result of that call).
pub fn differential_lms_verify<R: LmsReference>(
    reference: &R,
    public_key: &[u8],
    message: &[u8],
    signature: &[u8],
) -> (r: Result<bool, Mismatch>)
    ensures
        exists|theirs: bool|
            call_ensures(R::verify, (reference, public_key, message, signature), theirs)
                && r == verdicts_compared(our_lms_verify_spec(public_key@, message@, signature@), theirs),
{
    let ours = our_lms_verify(public_key, message, signature);
    let ask = R::verify;
    let theirs = ask(reference, public_key, message, signature);
    assert(call_ensures(R::verify, (reference, public_key, message, signature), theirs));
    compare_verdicts(ours, theirs)
}

} // verus!
