use koffer::wire::digest::{Digest, Digest256};

const BYTE_STRING: u8 = 0x40;

#[test]
fn decodes_fixed_length_byte_string_without_alloc() {
    let wire = [BYTE_STRING | 4, 0xDE, 0xAD, 0xBE, 0xEF];
    let d = Digest::<4>::decode(&wire).expect("decode");
    assert_eq!(d.as_bytes(), &[0xDE, 0xAD, 0xBE, 0xEF]);
}

#[test]
fn decode_rejects_wrong_length() {
    let wire = [BYTE_STRING | 3, 0x01, 0x02, 0x03];
    assert!(Digest::<4>::decode(&wire).is_err());
}

#[test]
fn encodes_as_byte_string_not_array() {
    let d = Digest::<3>::new([0x01, 0x02, 0x03]);
    assert_eq!(d.encode(), [BYTE_STRING | 3, 0x01, 0x02, 0x03]);
}

#[test]
fn digest_round_trip() {
    let original = Digest256::new([7u8; 32]);
    let bytes = original.encode();
    let decoded = Digest256::decode(&bytes).expect("decode");
    assert_eq!(decoded, original);
    assert_eq!(decoded.encode(), bytes);
    assert_eq!(bytes[..2], [0x58, 0x20]);
}
