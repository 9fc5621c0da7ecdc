use hbs_lms::{HssParameter, LmotsAlgorithm, LmsAlgorithm, Seed, Sha256_256};
use koffer::crypto::kem::Kem;
use koffer::crypto::mldsa::MlDsa;
use koffer::crypto::mlkem::{MlKem, MlKem768};
use koffer::crypto::sign::Signer;
use koffer::difftest::{
    compare_secrets, compare_verdicts, differential_decapsulate, differential_lms_verify,
    differential_verify, our_decapsulate, our_lms_verify, our_verify, KemMismatch, LmsReference,
    Mismatch, MlDsaReference, MlDsaSet, MlKemReference, MlKemSet,
};

/// A deliberately wrong reference that accepts everything.
struct AlwaysAccept;

impl MlDsaReference for AlwaysAccept {
    fn verify(&self, _set: MlDsaSet, _public_key: &[u8], _message: &[u8], _signature: &[u8]) -> bool {
        true
    }
}

impl LmsReference for AlwaysAccept {
    fn verify(&self, _public_key: &[u8], _message: &[u8], _signature: &[u8]) -> bool {
        true
    }
}

/// A reference that answers what this library's backend answers.
struct Agreeing;

impl MlDsaReference for Agreeing {
    fn verify(&self, set: MlDsaSet, public_key: &[u8], message: &[u8], signature: &[u8]) -> bool {
        our_verify(set, public_key, message, signature)
    }
}

impl MlKemReference for Agreeing {
    fn decapsulate(&self, set: MlKemSet, seed: &[u8], ciphertext: &[u8]) -> Option<Vec<u8>> {
        our_decapsulate(set, seed, ciphertext)
    }
}

/// A deliberately wrong reference that returns a fixed bogus secret.
struct WrongSecret;

impl MlKemReference for WrongSecret {
    fn decapsulate(&self, _set: MlKemSet, _seed: &[u8], _ciphertext: &[u8]) -> Option<Vec<u8>> {
        Some(vec![0u8; 32])
    }
}

/// A genuine ML-DSA-65 vector: (public key, message, signature).
fn mldsa65_vector() -> (Vec<u8>, Vec<u8>, Vec<u8>) {
    let backend = MlDsa::<ml_dsa::MlDsa65>::new();
    let (sk, vk) = backend.keygen(&[0x42u8; 32]).unwrap();
    let message = b"firmware image".to_vec();
    let signature = backend.sign(&sk, &message).unwrap();
    (vk.as_slice().to_vec(), message, signature.as_slice().to_vec())
}

#[test]
fn mldsa_differential_catches_a_wrong_reference() {
    // On a must-reject input our backend rejects while `AlwaysAccept` accepts, so the
    // differential must surface a mismatch instead of a false agreement.
    let (public_key, message, mut signature) = mldsa65_vector();
    signature[0] ^= 0x01;
    let result = differential_verify(&AlwaysAccept, MlDsaSet::MlDsa65, &public_key, &message, &signature);
    assert_eq!(
        result,
        Err(Mismatch {
            ours: false,
            reference: true
        })
    );
}

#[test]
fn mldsa_differential_agrees_with_an_agreeing_reference() {
    let (public_key, message, signature) = mldsa65_vector();
    assert_eq!(
        differential_verify(&Agreeing, MlDsaSet::MlDsa65, &public_key, &message, &signature),
        Ok(true)
    );
    // The ML-DSA-87 backend rejects an ML-DSA-65 key.
    assert!(!our_verify(MlDsaSet::MlDsa87, &public_key, &message, &signature));
    // A wrong-length key is a rejection, not a panic.
    assert!(!our_verify(MlDsaSet::MlDsa65, &[0u8; 3], &message, &signature));
}

#[test]
fn mlkem_differential_catches_a_wrong_reference() {
    // On a real input our backend returns the true secret while `WrongSecret` returns
    // zeros, so the differential must surface a mismatch instead of a false agreement.
    let seed = [0x24u8; 64];
    let kem = MlKem::<MlKem768>::new();
    let (ek, _dk) = kem.keygen(&seed).unwrap();
    let (ciphertext, expected) = kem.encapsulate(&ek, &[0x99u8; 32]).unwrap();
    match differential_decapsulate(&WrongSecret, MlKemSet::MlKem768, &seed, ciphertext.as_slice()) {
        Err(KemMismatch { ours, reference }) => {
            assert_eq!(ours.as_deref(), Some(expected.as_slice()));
            assert_eq!(reference, Some(vec![0u8; 32]));
        }
        Ok(_) => panic!("differential failed to catch the wrong reference"),
    }
}

#[test]
fn mlkem_differential_agrees_on_malformed_input() {
    // A short seed is a malformed input on both sides: agreement on `None`.
    assert_eq!(
        differential_decapsulate(&Agreeing, MlKemSet::MlKem768, &[0u8; 10], &[0u8; 1088]),
        Ok(None)
    );
    assert_eq!(our_decapsulate(MlKemSet::MlKem1024, &[0u8; 64], &[0u8; 3]), None);
}

#[test]
fn comparisons_report_both_answers() {
    assert_eq!(compare_verdicts(true, true), Ok(true));
    assert_eq!(compare_verdicts(false, false), Ok(false));
    assert_eq!(
        compare_verdicts(true, false),
        Err(Mismatch {
            ours: true,
            reference: false
        })
    );
    assert_eq!(compare_secrets(None, None), Ok(None));
    assert_eq!(
        compare_secrets(Some(vec![1]), None),
        Err(KemMismatch {
            ours: Some(vec![1]),
            reference: None
        })
    );
}

/// A genuine single-level LMS vector over SHA-256/256: (public key, message, signature).
fn lms_vector() -> (Vec<u8>, Vec<u8>, Vec<u8>) {
    let parameters = [HssParameter::<Sha256_256>::new(LmotsAlgorithm::LmotsW8, LmsAlgorithm::LmsH5)];
    let seed = Seed::<Sha256_256>::from([0x42u8; 32]);
    let (signing_key, verifying_key) = hbs_lms::keygen::<Sha256_256>(&parameters, &seed, None).unwrap();
    let message = b"firmware image".to_vec();
    let signature =
        hbs_lms::sign::<Sha256_256>(&message, signing_key.as_slice(), &mut |_| Ok(()), None).unwrap();
    (verifying_key.as_slice().to_vec(), message, signature.as_ref().to_vec())
}

#[test]
fn lms_differential_catches_a_wrong_reference() {
    // On a tampered message our backend rejects while `AlwaysAccept` accepts, so the
    // differential must surface a mismatch instead of a false agreement.
    let (public_key, message, signature) = lms_vector();
    assert!(our_lms_verify(&public_key, &message, &signature));
    let mut tampered = message.clone();
    tampered[0] ^= 0x01;
    let result = differential_lms_verify(&AlwaysAccept, &public_key, &tampered, &signature);
    assert_eq!(
        result,
        Err(Mismatch {
            ours: false,
            reference: true
        })
    );
    assert_eq!(differential_lms_verify(&AlwaysAccept, &public_key, &message, &signature), Ok(true));
}

#[test]
fn lms_malformed_inputs_are_rejected_not_panicking() {
    let (public_key, message, signature) = lms_vector();
    // Truncated signatures and keys, at every length.
    for cut in [0, 3, 4, 7, 8, 40, signature.len() / 2, signature.len() - 1] {
        assert!(!our_lms_verify(&public_key, &message, &signature[..cut]));
    }
    for cut in [0, 3, 4, 20, public_key.len() - 1] {
        assert!(!our_lms_verify(&public_key[..cut], &message, &signature));
    }
    // An unknown LM-OTS typecode, an unknown LMS typecode, too many levels.
    let mut bad = signature.clone();
    bad[8..12].copy_from_slice(&[0, 0, 0, 9]);
    assert!(!our_lms_verify(&public_key, &message, &bad));
    let mut levels = signature.clone();
    levels[0..4].copy_from_slice(&[0, 0, 0, 8]);
    assert!(!our_lms_verify(&public_key, &message, &levels));
    assert!(!our_lms_verify(&[0xff; 60], &message, &[0xff; 200]));
}

/// A reference that always answers with one fixed secret.
struct FixedSecret(Option<Vec<u8>>);

impl MlKemReference for FixedSecret {
    fn decapsulate(&self, _set: MlKemSet, _seed: &[u8], _ciphertext: &[u8]) -> Option<Vec<u8>> {
        self.0.clone()
    }
}

#[test]
fn differentials_hand_the_same_input_to_the_reference() {
    // The reference's answer decides the outcome: agreement when it matches ours.
    let (public_key, message, signature) = mldsa65_vector();
    assert_eq!(
        differential_verify(&AlwaysAccept, MlDsaSet::MlDsa65, &public_key, &message, &signature),
        Ok(true)
    );
    assert_eq!(
        differential_decapsulate(&FixedSecret(None), MlKemSet::MlKem768, &[0u8; 3], &[0u8; 3]),
        Ok(None)
    );
    assert_eq!(
        differential_decapsulate(&FixedSecret(Some(vec![7])), MlKemSet::MlKem768, &[0u8; 3], &[0u8; 3]),
        Err(KemMismatch { ours: None, reference: Some(vec![7]) })
    );
}
