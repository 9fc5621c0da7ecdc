use koffer::crypto::error::{SignError, VerifyError};
use koffer::crypto::mldsa::MlDsa;
use koffer::crypto::sign::{Signature, Signer, SigningKey, StatefulSigner, Verifier};
use ml_dsa::{MlDsa65, MlDsa87};

#[test]
fn mldsa65_round_trips() {
    let backend = MlDsa::<MlDsa65>::new();
    let (sk, vk) = backend.keygen(&[0x42u8; 32]).unwrap();
    let message = b"firmware image";
    let signature = backend.sign(&sk, message).unwrap();
    backend.verify(&vk, message, &signature).unwrap();
}

#[test]
fn mldsa87_round_trips() {
    let backend = MlDsa::<MlDsa87>::new();
    let (sk, vk) = backend.keygen(&[0x42u8; 32]).unwrap();
    let message = b"firmware image";
    let signature = backend.sign(&sk, message).unwrap();
    backend.verify(&vk, message, &signature).unwrap();
}

#[test]
fn mldsa_rejects_a_tampered_message_and_short_entropy() {
    let backend = MlDsa::<MlDsa65>::new();
    let (sk, vk) = backend.keygen(&[0x42u8; 32]).unwrap();
    let signature = backend.sign(&sk, b"firmware image").unwrap();
    assert_eq!(
        backend.verify(&vk, b"firmware imagf", &signature),
        Err(VerifyError::VerificationFailed)
    );
    let short = Signature::try_from(&signature.as_slice()[..10]).unwrap();
    assert_eq!(
        backend.verify(&vk, b"firmware image", &short),
        Err(VerifyError::MalformedSignature)
    );
    assert!(matches!(backend.keygen(&[0u8; 31]), Err(SignError::Internal)));
}

#[test]
fn mldsa_signing_is_deterministic_in_the_key() {
    let backend = MlDsa::<MlDsa87>::new();
    let (sk, _) = backend.keygen(&[0x01u8; 32]).unwrap();
    let a = backend.sign(&sk, b"m").unwrap();
    let b = backend.sign(&sk, b"m").unwrap();
    assert_eq!(a.as_slice(), b.as_slice());
}

/// A toy one-time signer: the key is a counter that each signature advances.
struct CountingSigner;

impl StatefulSigner for CountingSigner {
    fn sign<F: FnMut(&[u8]) -> Result<(), SignError>>(
        &self,
        key: &SigningKey,
        message: &[u8],
        persist: &mut F,
    ) -> Result<Signature, SignError> {
        let next = key.as_slice()[0].checked_add(1).ok_or(SignError::KeyExhausted)?;
        persist(&[next])?;
        let mut bytes = vec![key.as_slice()[0]];
        bytes.extend_from_slice(message);
        Signature::try_from(bytes.as_slice()).map_err(|_| SignError::Internal)
    }
}

#[test]
fn stateful_signer_persists_before_releasing() {
    let key = SigningKey::try_from(&[4u8][..]).unwrap();
    let mut stored = Vec::new();
    let sig = CountingSigner.sign(&key, b"m", &mut |k: &[u8]| {
        stored = k.to_vec();
        Ok(())
    });
    assert_eq!(sig.unwrap().as_slice(), &[4, b'm']);
    assert_eq!(stored, vec![5]);
    let refused = CountingSigner.sign(&key, b"m", &mut |_: &[u8]| Err(SignError::Internal));
    assert_eq!(refused.err(), Some(SignError::Internal));
}
