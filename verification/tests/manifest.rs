use koffer::wire::alg::AlgId;
use koffer::wire::ascii::AsciiStr;
use koffer::wire::manifest::{Manifest, SuitDigest};

fn to_hex(bytes: &[u8]) -> String {
    bytes.iter().map(|b| format!("{b:02x}")).collect()
}

#[test]
fn decodes_required_only_without_alloc() {
    let wire = [
        0xa5, 0x01, 0x01, 0x02, 0x05, 0x03, 0x63, b'k', b'o', b'f', 0x04, 0x82, 0x2f, 0x42, 0xAB,
        0xCD, 0x05, 0x00,
    ];
    let m = Manifest::decode(&wire).expect("decode");
    assert_eq!(m.profile_version(), 1);
    assert_eq!(m.sequence(), 5);
    assert_eq!(m.class_id().as_str(), "kof");
    assert_eq!(m.payload_digest().alg(), AlgId::new(-16));
    assert_eq!(m.payload_digest().bytes(), &[0xAB, 0xCD]);
    assert_eq!(m.target_slot(), 0);
    assert!(m.version_string().is_none());
    assert!(m.encrypted().is_none());
}

#[test]
fn binds_matches_alg_and_bytes() {
    let class_id = AsciiStr::try_from("acme-rtos").unwrap();
    let payload_digest = SuitDigest::new(AlgId::new(-16), &[0xAB, 0xCD, 0xEF]);
    let manifest = Manifest::new(1, 7, class_id, payload_digest, 0);
    assert!(manifest.binds(SuitDigest::new(AlgId::new(-16), &[0xAB, 0xCD, 0xEF])));
    assert!(!manifest.binds(SuitDigest::new(AlgId::new(-16), &[0xAB, 0xCD, 0x00])));
    assert!(!manifest.binds(SuitDigest::new(AlgId::new(-43), &[0xAB, 0xCD, 0xEF])));
}

#[test]
fn rejects_non_ascii_class_id() {
    let wire = [
        0xa5, 0x01, 0x01, 0x02, 0x05, 0x03, 0x65, 0x63, 0x61, 0x66, 0xc3, 0xa9, 0x04, 0x82, 0x2f,
        0x42, 0xAB, 0xCD, 0x05, 0x00,
    ];
    assert!(Manifest::decode(&wire).is_err());
}

#[test]
fn rejects_unknown_label() {
    let wire = [
        0xa6, 0x01, 0x01, 0x02, 0x05, 0x03, 0x63, b'k', b'o', b'f', 0x04, 0x82, 0x2f, 0x42, 0xAB,
        0xCD, 0x05, 0x00, 0x09, 0x00,
    ];
    assert!(Manifest::decode(&wire).is_err());
}

#[test]
fn rejects_out_of_order_labels() {
    let wire = [
        0xa5, 0x02, 0x05, 0x01, 0x01, 0x03, 0x63, b'k', b'o', b'f', 0x04, 0x82, 0x2f, 0x42, 0xAB,
        0xCD, 0x05, 0x00,
    ];
    assert!(Manifest::decode(&wire).is_err());
}

#[test]
fn rejects_duplicate_label() {
    let wire = [
        0xa6, 0x01, 0x01, 0x01, 0x02, 0x02, 0x05, 0x03, 0x63, b'k', b'o', b'f', 0x04, 0x82, 0x2f,
        0x42, 0xAB, 0xCD, 0x05, 0x00,
    ];
    assert!(Manifest::decode(&wire).is_err());
}

#[test]
fn rejects_missing_required_field() {
    let wire = [
        0xa4, 0x01, 0x01, 0x02, 0x05, 0x03, 0x63, b'k', b'o', b'f', 0x04, 0x82, 0x2f, 0x42, 0xAB,
        0xCD,
    ];
    assert!(Manifest::decode(&wire).is_err());
}

#[test]
fn rejects_encrypted_digest_without_key_id() {
    let wire = [
        0xa6, 0x01, 0x01, 0x02, 0x05, 0x03, 0x63, b'k', b'o', b'f', 0x04, 0x82, 0x2f, 0x42, 0xAB,
        0xCD, 0x05, 0x00, 0x07, 0x82, 0x2f, 0x42, 0xBB, 0xCC,
    ];
    assert!(Manifest::decode(&wire).is_err());
}

#[test]
fn rejects_indefinite_map() {
    let wire = [
        0xbf, 0x01, 0x01, 0x02, 0x05, 0x03, 0x63, b'k', b'o', b'f', 0x04, 0x82, 0x2f, 0x42, 0xAB,
        0xCD, 0x05, 0x00, 0xff,
    ];
    assert!(Manifest::decode(&wire).is_err());
}

#[test]
fn round_trips_required_only() {
    let class_id = AsciiStr::try_from("acme-rtos").unwrap();
    let digest_bytes = [0x11; 32];
    let payload_digest = SuitDigest::new(AlgId::new(-16), &digest_bytes);
    let original = Manifest::new(2, 100, class_id, payload_digest, 1);
    let bytes = original.encode();
    let decoded = Manifest::decode(&bytes).expect("decode");
    assert_eq!(decoded, original);
    assert_eq!(decoded.encode(), bytes);
}

#[test]
fn round_trips_with_all_optionals() {
    let class_id = AsciiStr::try_from("acme-rtos").unwrap();
    let d1 = [0x22; 32];
    let d2 = [0x33; 32];
    let payload_digest = SuitDigest::new(AlgId::new(-16), &d1);
    let version_string = AsciiStr::try_from("1.2.3").unwrap();
    let encrypted_digest = SuitDigest::new(AlgId::new(-16), &d2);
    let key_id = AsciiStr::try_from("device-root").unwrap();
    let original = Manifest::new(1, 42, class_id, payload_digest, 0)
        .with_version_string(version_string)
        .with_encrypted(encrypted_digest, key_id);
    let bytes = original.encode();
    let decoded = Manifest::decode(&bytes).expect("decode");
    assert_eq!(decoded, original);
    assert_eq!(decoded.encode(), bytes);
}

#[test]
fn matches_frozen_vector() {
    const KAT_HEX: &str = "a8010102182a036961636d652d72746f7304822f5820aaaaaaaaaaaaaaaaaaaaaaaaaaaaaaaaaaaaaaaaaaaaaaaaaaaaaaaaaaaaaaaa05000665312e322e3307822f5820bbbbbbbbbbbbbbbbbbbbbbbbbbbbbbbbbbbbbbbbbbbbbbbbbbbbbbbbbbbbbbbb086b6465766963652d726f6f74";
    let class_id = AsciiStr::try_from("acme-rtos").unwrap();
    let d1 = [0xAA; 32];
    let d2 = [0xBB; 32];
    let payload_digest = SuitDigest::new(AlgId::new(-16), &d1);
    let version_string = AsciiStr::try_from("1.2.3").unwrap();
    let encrypted_digest = SuitDigest::new(AlgId::new(-16), &d2);
    let key_id = AsciiStr::try_from("device-root").unwrap();
    let original = Manifest::new(1, 42, class_id, payload_digest, 0)
        .with_version_string(version_string)
        .with_encrypted(encrypted_digest, key_id);
    let bytes = original.encode();
    assert_eq!(to_hex(&bytes), KAT_HEX);
    let decoded = Manifest::decode(&bytes).expect("decode");
    assert_eq!(decoded, original);
}

#[test]
fn manifest_accessors_cover_both_field_names() {
    let class_id = AsciiStr::try_from("acme").unwrap();
    let d1 = [0x01; 4];
    let d2 = [0x02; 4];
    let payload_digest = SuitDigest::new(AlgId::new(-16), &d1);
    let m = Manifest::new(3, 9, class_id, payload_digest, 2);
    assert_eq!(m.version(), 3);
    assert_eq!(m.profile_version(), 3);
    assert!(m.encrypted_digest().is_none());
    assert!(m.key_ref().is_none());
    let m = m.with_encrypted(SuitDigest::new(AlgId::new(-43), &d2), AsciiStr::try_from("k1").unwrap());
    assert_eq!(m.encrypted_digest().unwrap().bytes(), &[0x02; 4]);
    assert_eq!(m.key_ref().unwrap().as_str(), "k1");
    let e = m.encrypted().unwrap();
    assert_eq!(e.digest().alg(), AlgId::new(-43));
    assert_eq!(e.key_id().as_str(), "k1");
    assert!(m.payload_digest().same_as(&SuitDigest::new(AlgId::new(-16), &d1)));
}

#[test]
fn manifest_decode_ignores_trailing_bytes() {
    let wire = [
        0xa5, 0x01, 0x01, 0x02, 0x05, 0x03, 0x63, b'k', b'o', b'f', 0x04, 0x82, 0x2f, 0x42, 0xAB,
        0xCD, 0x05, 0x00, 0xde, 0xad,
    ];
    assert_eq!(Manifest::decode(&wire).unwrap().sequence(), 5);
}
