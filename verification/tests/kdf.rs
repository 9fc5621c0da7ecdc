use koffer::crypto::error::KdfError;
use koffer::crypto::kdf::{Hkdf, Kdf};
use sha2::{Sha256, Sha384};

fn unhex(s: &str) -> Vec<u8> {
    (0..s.len())
        .step_by(2)
        .map(|i| u8::from_str_radix(&s[i..i + 2], 16).unwrap())
        .collect()
}

#[test]
fn rfc5869_hkdf_sha256_vectors() {
    let backend = Hkdf::<Sha256>::new();
    // RFC 5869 A.1: basic case.
    let ikm = [0x0bu8; 22];
    let salt = unhex("000102030405060708090a0b0c");
    let info = unhex("f0f1f2f3f4f5f6f7f8f9");
    let mut okm = vec![0u8; 42];
    backend.derive(&salt, &ikm, &info, &mut okm).unwrap();
    assert_eq!(
        okm,
        unhex("3cb25f25faacd57a90434f64d0362f2a2d2d0a90cf1a5a4c5db02d56ecc4c5bf34007208d5b887185865")
    );
    // RFC 5869 A.3: empty salt and info.
    let mut okm = vec![0u8; 42];
    backend.derive(&[], &ikm, &[], &mut okm).unwrap();
    assert_eq!(
        okm,
        unhex("8da4e775a563c18f715f802a063c5a31b8a11f5c5ee1879ec3454e5f3c738d2d9d201395faa4b61a96c8")
    );
}

#[test]
fn derive_length_is_a_prefix() {
    // HKDF expands a stream and truncates, so a shorter output is a prefix of a longer
    // one derived from the same inputs.
    let backend = Hkdf::<Sha256>::new();
    let mut short = [0u8; 16];
    let mut long = [0u8; 64];
    backend.derive(b"salt", b"ikm", b"info", &mut short).unwrap();
    backend.derive(b"salt", b"ikm", b"info", &mut long).unwrap();
    assert_eq!(&long[..16], &short[..]);
}

#[test]
fn different_info_diverges() {
    let backend = Hkdf::<Sha256>::new();
    let mut a = [0u8; 32];
    let mut b = [0u8; 32];
    backend.derive(b"salt", b"ikm", b"context-a", &mut a).unwrap();
    backend.derive(b"salt", b"ikm", b"context-b", &mut b).unwrap();
    assert_ne!(a, b);
}

#[test]
fn different_salt_diverges() {
    let backend = Hkdf::<Sha256>::new();
    let mut a = [0u8; 32];
    let mut b = [0u8; 32];
    backend.derive(b"salt-a", b"ikm", b"info", &mut a).unwrap();
    backend.derive(b"salt-b", b"ikm", b"info", &mut b).unwrap();
    assert_ne!(a, b);
}

#[test]
fn exceeds_max_output_length_errors() {
    // HKDF caps output at 255 * hash_len; for SHA-256 that is 255 * 32 bytes.
    let backend = Hkdf::<Sha256>::new();
    let mut okm = vec![0u8; 255 * 32 + 1];
    assert_eq!(
        backend.derive(b"salt", b"ikm", b"info", &mut okm),
        Err(KdfError::InvalidOutputLength)
    );
    // The untouched buffer stays zero.
    assert!(okm.iter().all(|&b| b == 0));
    let mut okm = vec![0u8; 255 * 32];
    assert!(backend.derive(b"salt", b"ikm", b"info", &mut okm).is_ok());
}

#[test]
fn sha384_has_its_own_limit_and_stream() {
    let backend = Hkdf::<Sha384>::new();
    let mut okm = vec![0u8; 255 * 48];
    assert!(backend.derive(b"salt", b"ikm", b"info", &mut okm).is_ok());
    let mut okm = vec![0u8; 255 * 48 + 1];
    assert_eq!(
        backend.derive(b"salt", b"ikm", b"info", &mut okm),
        Err(KdfError::InvalidOutputLength)
    );
    let mut a = [0u8; 32];
    let mut b = [0u8; 32];
    backend.derive(b"salt", b"ikm", b"info", &mut a).unwrap();
    Hkdf::<Sha256>::new().derive(b"salt", b"ikm", b"info", &mut b).unwrap();
    assert_ne!(a, b);
}
