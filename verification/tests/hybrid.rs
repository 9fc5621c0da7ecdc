use koffer::crypto::hybrid::{combine_shared_secrets, label_1024, label_768, split_last_32};
use koffer::crypto::kdf::{Hkdf, Kdf};
use sha2::Sha256;

const SS_MLKEM: [u8; 32] = [0x01; 32];
const SS_X25519: [u8; 32] = [0x02; 32];
const CIPHERTEXT: [u8; 64] = [0x03; 64];

#[test]
fn hybrid_combine_is_deterministic() {
    let kdf = Hkdf::<Sha256>::new();
    let a = combine_shared_secrets(&kdf, &label_768(), &SS_MLKEM, &SS_X25519, &CIPHERTEXT).unwrap();
    let b = combine_shared_secrets(&kdf, &label_768(), &SS_MLKEM, &SS_X25519, &CIPHERTEXT).unwrap();
    assert_eq!(a.as_slice(), b.as_slice());
}

#[test]
fn hybrid_combine_binds_every_input() {
    let kdf = Hkdf::<Sha256>::new();
    let base =
        combine_shared_secrets(&kdf, &label_768(), &SS_MLKEM, &SS_X25519, &CIPHERTEXT).unwrap();

    // Each input (both secrets, the transcript, and the label) changes the output.
    let mut ss_mlkem = SS_MLKEM;
    ss_mlkem[0] ^= 1;
    let a = combine_shared_secrets(&kdf, &label_768(), &ss_mlkem, &SS_X25519, &CIPHERTEXT).unwrap();
    assert_ne!(a.as_slice(), base.as_slice());

    let mut ss_x25519 = SS_X25519;
    ss_x25519[0] ^= 1;
    let b = combine_shared_secrets(&kdf, &label_768(), &SS_MLKEM, &ss_x25519, &CIPHERTEXT).unwrap();
    assert_ne!(b.as_slice(), base.as_slice());

    let mut ciphertext = CIPHERTEXT;
    ciphertext[0] ^= 1;
    let c = combine_shared_secrets(&kdf, &label_768(), &SS_MLKEM, &SS_X25519, &ciphertext).unwrap();
    assert_ne!(c.as_slice(), base.as_slice());

    let d = combine_shared_secrets(&kdf, &label_1024(), &SS_MLKEM, &SS_X25519, &CIPHERTEXT).unwrap();
    assert_ne!(d.as_slice(), base.as_slice());
}

#[test]
fn combine_is_the_first_32_bytes_of_the_kdf_output() {
    // salt = the first secret argument, ikm = the second, info = label || ciphertext.
    let kdf = Hkdf::<Sha256>::new();
    let combined =
        combine_shared_secrets(&kdf, &label_768(), &SS_X25519, &SS_MLKEM, &CIPHERTEXT).unwrap();
    let mut info = label_768().to_vec();
    info.extend_from_slice(&CIPHERTEXT);
    let mut okm = [0u8; 32];
    kdf.derive(&SS_X25519, &SS_MLKEM, &info, &mut okm).unwrap();
    assert_eq!(combined.as_slice(), &okm);
}

#[test]
fn combine_rejects_an_oversized_transcript() {
    let kdf = Hkdf::<Sha256>::new();
    let huge = vec![0u8; 4096];
    assert!(combine_shared_secrets(&kdf, &label_768(), &SS_MLKEM, &SS_X25519, &huge).is_err());
}

#[test]
fn labels_are_the_documented_strings() {
    assert_eq!(&label_768(), b"hybrid-x25519-mlkem768-v1");
    assert_eq!(&label_1024(), b"hybrid-x25519-mlkem1024-v1");
}

#[test]
fn split_and_concat_are_inverse() {
    let mut bytes = vec![0xAAu8; 10];
    bytes.extend_from_slice(&[0xBBu8; 32]);
    let (head, tail) = split_last_32(&bytes).unwrap();
    assert_eq!(head, &[0xAAu8; 10]);
    assert_eq!(tail, [0xBBu8; 32]);
    assert_eq!(koffer::crypto::hybrid::concat(head, &tail).unwrap(), bytes);
    assert!(split_last_32(&[0u8; 31]).is_none());
}
