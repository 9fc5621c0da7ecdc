use koffer::crypto::aead::{Aead, Aes256Gcm, ChaCha20Poly1305, Nonce};
use koffer::crypto::hybrid::{X25519MlKem1024, X25519MlKem768};
use koffer::crypto::kdf::{Hkdf, Kdf};
use koffer::crypto::kem::{Ciphertext, DecapsulationKey, EncapsulationKey, Kem};
use koffer::crypto::mlkem::{MlKem, MlKem1024, MlKem768};
use koffer::crypto::seal::{derive_key_nonce, seal, unseal, SealError};
use koffer::testutil::TestRng;
use sha2::{Sha256, Sha384};

/// Fixed entropy for keygen (at least 64 bytes for ML-KEM, 96 for the hybrids).
const ENTROPY: [u8; 96] = [0x07; 96];

/// Encapsulation entropy drawn from the counter generator (enough for every KEM).
fn encaps_entropy() -> Vec<u8> {
    TestRng::new(0).fill(64)
}

/// `seal -> unseal` recovers the exact plaintext, for any KEM/KDF/AEAD combination.
fn roundtrip<K: Kem, D: Kdf, A: Aead>(
    kem: &K,
    kdf: &D,
    aead: &A,
    ek: &EncapsulationKey,
    dk: &DecapsulationKey,
) {
    let plaintext = [0xABu8; 40];
    let aad = b"koffer seal roundtrip";
    let mut buffer = plaintext;

    let sealed = seal(kem, kdf, aead, ek, aad, &mut buffer, &encaps_entropy()).expect("seal");
    assert_ne!(buffer, plaintext, "buffer should be encrypted in place");

    unseal(kem, kdf, aead, dk, &sealed, aad, &mut buffer).expect("unseal");
    assert_eq!(buffer, plaintext, "unseal should recover the exact plaintext");
}

#[test]
fn roundtrip_showcase_mlkem() {
    let kem = MlKem::<MlKem768>::new();
    let (ek, dk) = kem.keygen(&ENTROPY).unwrap();
    roundtrip(&kem, &Hkdf::<Sha256>::new(), &Aes256Gcm, &ek, &dk);
}

#[test]
fn roundtrip_showcase_hybrid() {
    let kem = X25519MlKem768;
    let (ek, dk) = kem.keygen(&ENTROPY).unwrap();
    roundtrip(&kem, &Hkdf::<Sha256>::new(), &Aes256Gcm, &ek, &dk);
}

#[test]
fn roundtrip_cnsa20_mlkem() {
    let kem = MlKem::<MlKem1024>::new();
    let (ek, dk) = kem.keygen(&ENTROPY).unwrap();
    roundtrip(&kem, &Hkdf::<Sha384>::new(), &Aes256Gcm, &ek, &dk);
}

#[test]
fn roundtrip_cnsa20_hybrid() {
    let kem = X25519MlKem1024;
    let (ek, dk) = kem.keygen(&ENTROPY).unwrap();
    roundtrip(&kem, &Hkdf::<Sha384>::new(), &Aes256Gcm, &ek, &dk);
}

#[test]
fn roundtrip_with_chacha20_poly1305() {
    let kem = X25519MlKem768;
    let (ek, dk) = kem.keygen(&ENTROPY).unwrap();
    roundtrip(&kem, &Hkdf::<Sha256>::new(), &ChaCha20Poly1305, &ek, &dk);
}

#[test]
fn tampering_makes_unseal_fail() {
    let kem = X25519MlKem768;
    let kdf = Hkdf::<Sha256>::new();
    let aead = Aes256Gcm;
    let (ek, dk) = kem.keygen(&ENTROPY).unwrap();

    let plaintext = [0xABu8; 32];
    let aad = b"ctx";
    let mut ciphertext = plaintext;
    let sealed = seal(&kem, &kdf, &aead, &ek, aad, &mut ciphertext, &encaps_entropy()).unwrap();

    // 1. AEAD ciphertext tampered.
    {
        let mut buf = ciphertext;
        buf[0] ^= 1;
        assert!(unseal(&kem, &kdf, &aead, &dk, &sealed, aad, &mut buf).is_err());
    }
    // 2. Nonce tampered.
    {
        let mut buf = ciphertext;
        let mut s = sealed.clone();
        let mut n = s.nonce.as_slice().to_vec();
        n[0] ^= 1;
        s.nonce = Nonce::try_from(n.as_slice()).unwrap();
        assert!(unseal(&kem, &kdf, &aead, &dk, &s, aad, &mut buf).is_err());
    }
    // 3. KEM ciphertext tampered.
    {
        let mut buf = ciphertext;
        let mut s = sealed.clone();
        let mut c = s.kem_ciphertext.as_slice().to_vec();
        c[0] ^= 1;
        s.kem_ciphertext = Ciphertext::try_from(c.as_slice()).unwrap();
        assert!(unseal(&kem, &kdf, &aead, &dk, &s, aad, &mut buf).is_err());
    }
    // Baseline: the untouched ciphertext recovers the plaintext.
    {
        let mut buf = ciphertext;
        unseal(&kem, &kdf, &aead, &dk, &sealed, aad, &mut buf).unwrap();
        assert_eq!(buf, plaintext);
    }
}

#[test]
fn wrong_key_makes_unseal_fail() {
    /// A different key pair's entropy.
    const ENTROPY_OTHER: [u8; 96] = [0x5A; 96];

    let kem = MlKem::<MlKem768>::new();
    let kdf = Hkdf::<Sha256>::new();
    let aead = Aes256Gcm;
    let (ek, _dk) = kem.keygen(&ENTROPY).unwrap();
    let (_ek_other, wrong_dk) = kem.keygen(&ENTROPY_OTHER).unwrap();

    let plaintext = [0xABu8; 32];
    let aad = b"ctx";
    let mut buf = plaintext;
    let sealed = seal(&kem, &kdf, &aead, &ek, aad, &mut buf, &encaps_entropy()).unwrap();

    assert!(unseal(&kem, &kdf, &aead, &wrong_dk, &sealed, aad, &mut buf).is_err());
}

#[test]
fn seal_without_enough_entropy_leaves_the_buffer() {
    let kem = MlKem::<MlKem768>::new();
    let (ek, _dk) = kem.keygen(&ENTROPY).unwrap();
    let mut buf = [0x11u8; 8];
    let r = seal(&kem, &Hkdf::<Sha256>::new(), &Aes256Gcm, &ek, b"", &mut buf, &[0u8; 4]);
    assert!(matches!(r, Err(SealError::Kem(_))));
    assert_eq!(buf, [0x11u8; 8]);
}

#[test]
fn derived_key_and_nonce_are_deterministic() {
    let kdf = Hkdf::<Sha256>::new();
    let (k1, n1) = derive_key_nonce(&kdf, &[0x33u8; 32]).unwrap();
    let (k2, n2) = derive_key_nonce(&kdf, &[0x33u8; 32]).unwrap();
    assert_eq!(k1.as_slice(), k2.as_slice());
    assert_eq!(n1.as_slice(), n2.as_slice());
    assert_eq!(k1.as_slice().len(), 32);
    assert_eq!(n1.as_slice().len(), 12);
    let (k3, _) = derive_key_nonce(&kdf, &[0x34u8; 32]).unwrap();
    assert_ne!(k1.as_slice(), k3.as_slice());
}
