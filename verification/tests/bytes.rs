use koffer::crypto::bytes::{Bytes, BytesError};
use koffer::wire::bytes::CborBytes;

const BYTE_STRING: u8 = 0x40; // CBOR major type 2

#[test]
fn accepts_up_to_max() {
    let bytes = [0u8; 4];
    for len in 0..=4 {
        let r = Bytes::<4>::try_from(&bytes[..len]);
        assert!(r.is_ok(), "len {len} should be accepted");
        assert_eq!(r.unwrap().as_slice(), &bytes[..len]);
    }
}

#[test]
fn rejects_over_max() {
    let bytes = [0u8; 5];
    let r = Bytes::<4>::try_from(&bytes[..]);
    assert_eq!(r, Err(BytesError::TooLong { len: 5, max: 4 }));
}

#[test]
fn try_from_exact_requires_max_len() {
    assert!(Bytes::<4>::try_from_exact(&[1, 2, 3, 4]).is_ok());
    assert_eq!(
        Bytes::<4>::try_from_exact(&[1, 2, 3]),
        Err(BytesError::WrongLength {
            expected: 4,
            got: 3
        })
    );
    assert_eq!(
        Bytes::<4>::try_from_exact(&[1, 2, 3, 4, 5]),
        Err(BytesError::WrongLength {
            expected: 4,
            got: 5
        })
    );
}

#[test]
fn from_hex_parses_and_rejects() {
    assert_eq!(
        Bytes::<4>::from_hex("01aB").unwrap().as_slice(),
        &[0x01, 0xab]
    );
    assert_eq!(
        Bytes::<4>::from_hex("0"),
        Err(BytesError::OddLength { len: 1 })
    );
    assert_eq!(
        Bytes::<4>::from_hex("0g"),
        Err(BytesError::BadHex { index: 1 })
    );
    assert_eq!(
        Bytes::<2>::from_hex("01020304"),
        Err(BytesError::TooLong { len: 4, max: 2 })
    );
}

#[test]
fn from_hex_reports_the_first_bad_character() {
    assert_eq!(
        Bytes::<4>::from_hex("zz"),
        Err(BytesError::BadHex { index: 0 })
    );
    assert_eq!(Bytes::<4>::from_hex("").unwrap().as_slice(), &[] as &[u8]);
    assert_eq!(
        Bytes::<4>::from_hex("FFfe").unwrap().as_slice(),
        &[0xff, 0xfe]
    );
}

#[test]
fn behaves_like_a_byte_slice() {
    let b = Bytes::<4>::try_from(&[1u8, 2, 3][..]).unwrap();
    assert_eq!(b.len(), 3);
    assert!(!b.as_slice().is_empty());
    assert_eq!(b.as_slice()[1], 2);
    assert_eq!(b.as_slice().first(), Some(&1));
}

#[test]
fn equality_is_value_based() {
    let a = Bytes::<8>::try_from(&[1, 2, 3][..]).unwrap();
    let b = Bytes::<8>::try_from(&[1, 2, 3][..]).unwrap();
    let c = Bytes::<8>::try_from(&[1, 2, 4][..]).unwrap();
    let short = Bytes::<8>::try_from(&[1, 2][..]).unwrap();

    // `==` is constant-time but still means value equality.
    assert_eq!(a, b);
    assert_ne!(a, c);
    assert_ne!(a, short);

    // The constant-time primitive agrees.
    assert!(a.ct_eq(&b));
    assert!(!a.ct_eq(&c));
}

#[test]
fn zeroize_overwrites_the_bytes() {
    let mut b = Bytes::<8>::try_from(&[1, 2, 3, 4][..]).unwrap();
    b.zeroize();
    assert_eq!(b.as_slice(), &[0, 0, 0, 0]);
}

#[test]
fn clone_and_default_keep_the_contents() {
    let a = Bytes::<8>::try_from(&[7, 8][..]).unwrap();
    assert_eq!(a.clone().as_slice(), &[7, 8]);
    assert_eq!(Bytes::<8>::default().len(), 0);
    assert_eq!(Bytes::<8>::new().len(), 0);
}

#[test]
fn decodes_byte_string_without_alloc() {
    // CBOR byte string of length 3, then the bytes.
    let wire = [BYTE_STRING | 3, 0xAA, 0xBB, 0xCC];
    let cb = CborBytes::<8>::decode(&wire).expect("decode");
    assert_eq!(cb.as_slice(), &[0xAA, 0xBB, 0xCC]);
}

#[test]
fn decode_rejects_over_max_on_the_wire() {
    // A 3-byte byte string decoded into a CborBytes<2>.
    let wire = [BYTE_STRING | 3, 0x01, 0x02, 0x03];
    assert!(CborBytes::<2>::decode(&wire).is_err());
}

#[test]
fn encodes_as_byte_string() {
    let cb = CborBytes::<8>::try_from(&[1u8, 2, 3][..]).unwrap();
    // CBOR byte string of length 3, then the raw bytes.
    assert_eq!(cb.encode(), [BYTE_STRING | 3, 1, 2, 3]);
}

#[test]
fn bytes_round_trip() {
    let original = CborBytes::<16>::try_from(&[9u8; 10][..]).unwrap();
    let bytes = original.encode();
    let decoded = CborBytes::<16>::decode(&bytes).expect("decode");
    assert_eq!(decoded, original);
    // Deterministic: re-encoding yields identical bytes.
    assert_eq!(decoded.encode(), bytes);
}

#[test]
fn cbor_bytes_rejects_over_capacity_and_other_major_types() {
    assert_eq!(
        CborBytes::<2>::try_from(&[1u8, 2, 3][..]),
        Err(BytesError::TooLong { len: 3, max: 2 })
    );
    // A text string is not a byte string.
    assert!(CborBytes::<8>::decode(&[0x61, b'a']).is_err());
    // decode_from reports where the byte string ended.
    let wire = [0x00, BYTE_STRING | 1, 0x7f, 0xff];
    let (cb, end) = CborBytes::<4>::decode_from(&wire, 1).expect("decode");
    assert_eq!(cb.as_slice(), &[0x7f]);
    assert_eq!(end, 3);
}
