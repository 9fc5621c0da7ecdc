use koffer::crypto::error::KemError;
use koffer::crypto::hybrid::{X25519MlKem1024, X25519MlKem768};
use koffer::crypto::kem::{Ciphertext, DecapsulationKey, EncapsulationKey, Kem};
use koffer::crypto::mlkem::{MlKem, MlKem1024, MlKem768};
use koffer::testutil::TestRng;

const ENTROPY: [u8; 96] = [0x07; 96];

fn agree<K: Kem>(kem: &K, ek: &EncapsulationKey, dk: &DecapsulationKey) -> Vec<u8> {
    let (ct, ss) = kem.encapsulate(ek, &TestRng::new(9).fill(64)).unwrap();
    let recovered = kem.decapsulate(dk, &ct).unwrap();
    assert_eq!(ss.as_slice(), recovered.as_slice());
    assert_eq!(ss.as_slice().len(), 32);
    ct.as_slice().to_vec()
}

#[test]
fn mlkem_encapsulate_then_decapsulate_agree() {
    let kem = MlKem::<MlKem768>::new();
    let (ek, dk) = kem.keygen(&ENTROPY).unwrap();
    assert_eq!(ek.as_slice().len(), 1184);
    assert_eq!(agree(&kem, &ek, &dk).len(), 1088);

    let kem = MlKem::<MlKem1024>::new();
    let (ek, dk) = kem.keygen(&ENTROPY).unwrap();
    assert_eq!(ek.as_slice().len(), 1568);
    assert_eq!(agree(&kem, &ek, &dk).len(), 1568);
}

#[test]
fn hybrid_encapsulate_then_decapsulate_agree() {
    let (ek, dk) = X25519MlKem768.keygen(&ENTROPY).unwrap();
    assert_eq!(ek.as_slice().len(), 1184 + 32);
    assert_eq!(agree(&X25519MlKem768, &ek, &dk).len(), 1088 + 32);

    let (ek, dk) = X25519MlKem1024.keygen(&ENTROPY).unwrap();
    assert_eq!(ek.as_slice().len(), 1568 + 32);
    assert_eq!(agree(&X25519MlKem1024, &ek, &dk).len(), 1568 + 32);
}

#[test]
fn keygen_is_deterministic_in_the_entropy() {
    let kem = MlKem::<MlKem768>::new();
    let (a, _) = kem.keygen(&ENTROPY).unwrap();
    let (b, _) = kem.keygen(&ENTROPY).unwrap();
    let (c, _) = kem.keygen(&[0x08; 96]).unwrap();
    assert_eq!(a.as_slice(), b.as_slice());
    assert_ne!(a.as_slice(), c.as_slice());
}

#[test]
fn short_inputs_are_rejected() {
    let kem = MlKem::<MlKem768>::new();
    assert!(kem.keygen(&[0u8; 63]).is_err());
    assert!(X25519MlKem768.keygen(&[0u8; 95]).is_err());
    let (ek, dk) = kem.keygen(&ENTROPY).unwrap();
    assert!(kem.encapsulate(&ek, &[0u8; 31]).is_err());
    let short = Ciphertext::try_from(&[0u8; 10][..]).unwrap();
    assert_eq!(kem.decapsulate(&dk, &short).err(), Some(KemError::MalformedCiphertext));
}

#[test]
fn secrets_can_be_wiped() {
    let kem = MlKem::<MlKem768>::new();
    let (ek, mut dk) = kem.keygen(&ENTROPY).unwrap();
    let (_, mut ss) = kem.encapsulate(&ek, &[0x01u8; 32]).unwrap();
    ss.zeroize();
    assert_eq!(ss.as_slice(), &[0u8; 32]);
    let len = dk.as_slice().len();
    dk.zeroize();
    assert_eq!(dk.as_slice(), vec![0u8; len].as_slice());
}
