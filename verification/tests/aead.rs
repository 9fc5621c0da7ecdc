use koffer::crypto::aead::{Aead, Aes256Gcm, ChaCha20Poly1305, Key, Nonce, Tag, KEY_LEN, NONCE_LEN};
use koffer::crypto::error::AeadError;

fn unhex(s: &str) -> Vec<u8> {
    (0..s.len())
        .step_by(2)
        .map(|i| u8::from_str_radix(&s[i..i + 2], 16).unwrap())
        .collect()
}

fn check_roundtrip<A: Aead>(backend: &A, key: &Key, nonce: &Nonce, aad: &[u8], plaintext: &[u8]) {
    let mut buffer = plaintext.to_vec();
    let tag = backend.seal(key, nonce, aad, &mut buffer).unwrap();
    if !plaintext.is_empty() {
        assert_ne!(buffer.as_slice(), plaintext);
    }
    backend.unseal(key, nonce, aad, &mut buffer, &tag).unwrap();
    assert_eq!(buffer.as_slice(), plaintext);
}

#[test]
fn seal_then_unseal_recovers_the_plaintext() {
    let key = Key::try_from(&[0x5au8; KEY_LEN][..]).unwrap();
    let nonce = Nonce::try_from(&[0x01u8; NONCE_LEN][..]).unwrap();
    for len in [0usize, 1, 15, 16, 17, 255] {
        let plaintext: Vec<u8> = (0..len).map(|i| i as u8).collect();
        check_roundtrip(&Aes256Gcm, &key, &nonce, b"aad", &plaintext);
        check_roundtrip(&ChaCha20Poly1305, &key, &nonce, b"", &plaintext);
    }
}

// AES-256-GCM, the all-zero key and nonce (test cases 13 and 14 of the GCM specification).
#[test]
fn aes_256_gcm_known_answers() {
    let key = Key::try_from(&[0u8; KEY_LEN][..]).unwrap();
    let nonce = Nonce::try_from(&[0u8; NONCE_LEN][..]).unwrap();

    let mut empty: Vec<u8> = Vec::new();
    let tag = Aes256Gcm.seal(&key, &nonce, &[], &mut empty).unwrap();
    assert_eq!(tag.as_slice(), unhex("530f8afbc74536b9a963b4f1c4cb738b").as_slice());

    let mut block = vec![0u8; 16];
    let tag = Aes256Gcm.seal(&key, &nonce, &[], &mut block).unwrap();
    assert_eq!(block, unhex("cea7403d4d606b6e074ec5d3baf39d18"));
    assert_eq!(tag.as_slice(), unhex("d0d1c8a799996bf0265b98b5d48ab919").as_slice());
}

/// Seals a fixed message with `backend` and returns the parts, for the tamper tests.
fn seal_fixture<A: Aead>(backend: &A) -> (Key, Nonce, &'static [u8], Vec<u8>, Tag) {
    let key = Key::try_from(&[0x11u8; KEY_LEN][..]).unwrap();
    let nonce = Nonce::try_from(&[0x22u8; NONCE_LEN][..]).unwrap();
    let aad: &[u8] = b"header";
    let mut buffer = b"secret payload".to_vec();
    let tag = backend.seal(&key, &nonce, aad, &mut buffer).unwrap();
    (key, nonce, aad, buffer, tag)
}

fn check_rejects_tampered_ciphertext<A: Aead>(backend: &A) {
    let (key, nonce, aad, mut buffer, tag) = seal_fixture(backend);
    buffer[0] ^= 0x01;
    let before = buffer.clone();
    assert_eq!(
        backend.unseal(&key, &nonce, aad, &mut buffer, &tag),
        Err(AeadError::UnsealFailed)
    );
    // A failed unseal leaves the buffer as it was.
    assert_eq!(buffer, before);
}

fn check_rejects_tampered_tag<A: Aead>(backend: &A) {
    let (key, nonce, aad, mut buffer, tag) = seal_fixture(backend);
    let mut bytes = tag.as_slice().to_vec();
    bytes[0] ^= 0x01;
    let tag = Tag::try_from(&bytes[..]).unwrap();
    assert_eq!(
        backend.unseal(&key, &nonce, aad, &mut buffer, &tag),
        Err(AeadError::UnsealFailed)
    );
}

fn check_rejects_tampered_aad<A: Aead>(backend: &A) {
    let (key, nonce, _aad, mut buffer, tag) = seal_fixture(backend);
    assert_eq!(
        backend.unseal(&key, &nonce, b"HEADER", &mut buffer, &tag),
        Err(AeadError::UnsealFailed)
    );
}

fn check_rejects_malformed_key_and_nonce<A: Aead>(backend: &A) {
    let nonce = Nonce::try_from(&[0u8; NONCE_LEN][..]).unwrap();
    let mut buffer = [0u8; 4];

    // A 16-byte value is a valid `Key` but not a valid 256-bit AEAD key.
    let short_key = Key::try_from(&[0u8; 16][..]).unwrap();
    assert_eq!(
        backend.seal(&short_key, &nonce, &[], &mut buffer),
        Err(AeadError::MalformedKey)
    );

    // An 8-byte nonce is a valid `Nonce` but not a 96-bit AEAD nonce.
    let key = Key::try_from(&[0u8; KEY_LEN][..]).unwrap();
    let short_nonce = Nonce::try_from(&[0u8; 8][..]).unwrap();
    assert_eq!(
        backend.seal(&key, &short_nonce, &[], &mut buffer),
        Err(AeadError::MalformedNonce)
    );
    let tag = Tag::try_from(&[0u8; 16][..]).unwrap();
    assert_eq!(
        backend.unseal(&short_key, &nonce, &[], &mut buffer, &tag),
        Err(AeadError::MalformedKey)
    );
    assert_eq!(
        backend.unseal(&key, &short_nonce, &[], &mut buffer, &tag),
        Err(AeadError::MalformedNonce)
    );
    assert_eq!(buffer, [0u8; 4]);
}

#[test]
fn unseal_rejects_tampered_ciphertext() {
    check_rejects_tampered_ciphertext(&Aes256Gcm);
    check_rejects_tampered_ciphertext(&ChaCha20Poly1305);
}

#[test]
fn unseal_rejects_tampered_tag() {
    check_rejects_tampered_tag(&Aes256Gcm);
    check_rejects_tampered_tag(&ChaCha20Poly1305);
}

#[test]
fn unseal_rejects_tampered_aad() {
    check_rejects_tampered_aad(&Aes256Gcm);
    check_rejects_tampered_aad(&ChaCha20Poly1305);
}

#[test]
fn rejects_malformed_key_and_nonce() {
    check_rejects_malformed_key_and_nonce(&Aes256Gcm);
    check_rejects_malformed_key_and_nonce(&ChaCha20Poly1305);
}

#[test]
fn the_two_backends_differ() {
    let (_, _, _, gcm, _) = seal_fixture(&Aes256Gcm);
    let (_, _, _, chacha, _) = seal_fixture(&ChaCha20Poly1305);
    assert_ne!(gcm, chacha);
}
