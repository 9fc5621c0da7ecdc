use koffer::crypto::profile::CryptoProfile;
use koffer::demo::run::run;
use koffer::demo::seal::{seal_payload, unseal_payload};
use koffer::demo::sign::{sign_manifest, verify_manifest};
use koffer::testutil::TestRng;
use koffer::wire::alg::AlgId;
use koffer::wire::ascii::AsciiStr;
use koffer::wire::cose::{CoseEncrypt, CoseSign1, Payload, Recipient};
use koffer::crypto::mlkem::{MlKem, MlKem768};
use koffer::wire::manifest::{Manifest, SuitDigest};

/// Entropy for one sealing: 96 bytes for the recipient key pair, 64 for encapsulation.
fn seal_entropy(seed: u64) -> Vec<u8> {
    TestRng::new(seed).fill(160)
}

#[test]
fn sign_then_verify_round_trips() {
    let class_id = AsciiStr::try_from("device").expect("ascii");
    let digest_bytes = [0xABu8; 32];
    let digest = SuitDigest::new(AlgId::new(-16), &digest_bytes);
    let manifest = Manifest::new(1, 7, class_id, digest, 0);
    let (cose, vk) = sign_manifest(CryptoProfile::Showcase, &manifest, &[0x42u8; 32]).unwrap();
    assert!(verify_manifest(&cose, &vk));
}

#[test]
fn tampered_signature_is_rejected() {
    let class_id = AsciiStr::try_from("device").expect("ascii");
    let digest_bytes = [0xABu8; 32];
    let digest = SuitDigest::new(AlgId::new(-16), &digest_bytes);
    let manifest = Manifest::new(1, 7, class_id, digest, 0);
    let (mut cose, vk) = sign_manifest(CryptoProfile::Showcase, &manifest, &[0x42u8; 32]).unwrap();
    let mid = cose.len() / 2;
    cose[mid] ^= 0x01;
    assert!(!verify_manifest(&cose, &vk));
}

#[test]
fn sign_manifest_needs_a_full_seed() {
    let class_id = AsciiStr::try_from("device").expect("ascii");
    let digest_bytes = [0xABu8; 32];
    let manifest = Manifest::new(1, 7, class_id, SuitDigest::new(AlgId::new(-16), &digest_bytes), 0);
    assert!(sign_manifest(CryptoProfile::Cnsa20, &manifest, &[0x42u8; 31]).is_none());
}

#[test]
fn signed_manifest_carries_the_manifest_as_payload() {
    let class_id = AsciiStr::try_from("device").expect("ascii");
    let digest_bytes = [0xABu8; 32];
    let manifest = Manifest::new(1, 7, class_id, SuitDigest::new(AlgId::new(-16), &digest_bytes), 0);
    let (cose, _) = sign_manifest(CryptoProfile::Cnsa20, &manifest, &[0x42u8; 32]).unwrap();
    let parsed = CoseSign1::decode(&cose).unwrap();
    assert_eq!(parsed.alg(), AlgId::new(-65538));
    match parsed.payload() {
        Payload::Attached(bytes) => assert_eq!(bytes, manifest.encode().as_slice()),
        Payload::Detached => panic!("the manifest travels attached"),
    }
}

#[test]
fn seal_then_unseal_round_trips() {
    let (cose, dk) = seal_payload(CryptoProfile::Showcase, b"payload", b"ctx", &seal_entropy(1)).unwrap();
    assert_eq!(
        unseal_payload(&cose, &dk, b"ctx").as_deref(),
        Some(&b"payload"[..])
    );
}

#[test]
fn seal_then_unseal_round_trips_in_the_cnsa_profile() {
    let (cose, dk) = seal_payload(CryptoProfile::Cnsa20, b"firmware image", b"aad", &seal_entropy(7)).unwrap();
    assert_eq!(
        unseal_payload(&cose, &dk, b"aad").as_deref(),
        Some(&b"firmware image"[..])
    );
}

#[test]
fn tampered_container_is_rejected() {
    let (mut cose, dk) = seal_payload(CryptoProfile::Showcase, b"payload", b"ctx", &seal_entropy(1)).unwrap();
    let mid = cose.len() / 2;
    cose[mid] ^= 0x01;
    assert!(unseal_payload(&cose, &dk, b"ctx").is_none());
}

#[test]
fn wrong_aad_is_rejected() {
    let (cose, dk) =
        seal_payload(CryptoProfile::Cnsa20, b"firmware image", b"aad", &seal_entropy(3)).unwrap();
    assert!(unseal_payload(&cose, &dk, b"other").is_none());
}

#[test]
fn seal_payload_needs_enough_entropy() {
    assert!(seal_payload(CryptoProfile::Showcase, b"x", b"", &[0u8; 95]).is_none());
}

#[test]
fn end_to_end_full_flow_runs_in_both_profiles() {
    let showcase = run(CryptoProfile::Showcase, &seal_entropy(1));
    assert!(showcase.ok());
    assert_eq!(showcase.profile, CryptoProfile::Showcase);
    assert!(showcase.signed_len > 0 && showcase.sealed_len > 0);
    assert!(run(CryptoProfile::Cnsa20, &seal_entropy(1)).ok());
}

#[test]
fn end_to_end_run_without_entropy_fails_the_sealing_half() {
    let report = run(CryptoProfile::Showcase, &[]);
    assert!(report.verified);
    assert!(!report.opened);
    assert_eq!(report.sealed_len, 0);
    assert!(!report.ok());
}

#[test]
fn end_to_end_tampered_signature_and_container_are_rejected() {
    let class_id = AsciiStr::try_from("koffer-device").unwrap();
    let digest_bytes = [0xA5u8; 32];
    let digest = SuitDigest::new(AlgId::new(-16), &digest_bytes);
    let manifest = Manifest::new(1, 42, class_id, digest, 0);

    let (mut signed, vk) = sign_manifest(CryptoProfile::Cnsa20, &manifest, &[0x11u8; 32]).unwrap();
    let i = signed.len() / 2;
    signed[i] ^= 0x01;
    assert!(!verify_manifest(&signed, &vk));

    let (mut sealed, dk) =
        seal_payload(CryptoProfile::Cnsa20, b"payload", b"aad", &seal_entropy(2)).unwrap();
    let i = sealed.len() / 2;
    sealed[i] ^= 0x01;
    assert!(unseal_payload(&sealed, &dk, b"aad").is_none());
}

#[test]
fn unseal_payload_rejects_a_plain_kem_codepoint() {
    let (_ek, dk) = MlKem::<MlKem768>::new().keygen(&[0x07u8; 64]).unwrap();
    let nonce = [0u8; 12];
    let body = [0u8; 32];
    let encapsulation = [0u8; 1088];
    // ML-KEM-768 alone names no hybrid KEM.
    let recipient = Recipient::new(AlgId::new(-65539), None, &encapsulation);
    let cose = CoseEncrypt::new(AlgId::new(3), &nonce, &body, recipient).encode();
    assert_eq!(unseal_payload(&cose, &dk, b"aad"), None);
    // A body shorter than a tag.
    let recipient = Recipient::new(AlgId::new(-65541), None, &encapsulation);
    let short = CoseEncrypt::new(AlgId::new(3), &nonce, &body[..15], recipient).encode();
    assert_eq!(unseal_payload(&short, &dk, b"aad"), None);
}
