use koffer::wire::ascii::{AsciiError, AsciiStr, AsciiString, PRINTABLE_FIRST, PRINTABLE_LAST};

const TEXT_STRING: u8 = 0x60;

#[test]
fn accepts_every_printable_byte() {
    for b in PRINTABLE_FIRST..=PRINTABLE_LAST {
        assert!(
            AsciiStr::try_from([b].as_slice()).is_ok(),
            "0x{b:02X} should be accepted"
        );
    }
}

#[test]
fn accepts_printable_string_and_preserves_content() {
    let s = AsciiStr::try_from("Hello, KOFFER! ~").unwrap();
    assert_eq!(s.as_str(), "Hello, KOFFER! ~");
}

#[test]
fn rejects_c0_control_bytes() {
    for b in 0..PRINTABLE_FIRST {
        assert_eq!(
            AsciiStr::try_from([b].as_slice()),
            Err(AsciiError),
            "control 0x{b:02X} should be rejected"
        );
    }
}

#[test]
fn rejects_just_outside_the_range() {
    let below = PRINTABLE_FIRST - 1; // 0x1F
    let above = PRINTABLE_LAST + 1; // 0x7F (DEL)
    assert!(AsciiStr::try_from([below].as_slice()).is_err());
    assert!(AsciiStr::try_from([above].as_slice()).is_err());
}

#[test]
fn rejects_non_ascii_utf8_text() {
    assert!(AsciiStr::try_from("café").is_err());
}

#[test]
fn rejects_invalid_utf8_bytes() {
    assert!(AsciiStr::try_from([0x80u8].as_slice()).is_err());
}

#[test]
fn asciistr_decodes_from_cbor_without_alloc() {
    let bytes = [TEXT_STRING | 3, b'a', b'b', b'c'];
    let s = AsciiStr::decode(&bytes).expect("decode");
    assert_eq!(s.as_str(), "abc");
}

#[test]
fn asciistr_cbor_round_trip() {
    let original = AsciiStr::try_from("firmware-slot-0").unwrap();
    let bytes = original.encode();
    let decoded = AsciiStr::decode(&bytes).expect("decode");
    assert_eq!(decoded, original);
    assert_eq!(decoded.encode(), bytes);
}

#[test]
fn cbor_decode_rejects_non_ascii_on_the_wire() {
    // A valid CBOR text string whose content ("café") is not printable ASCII.
    let wire = [TEXT_STRING | 5, 0x63, 0x61, 0x66, 0xc3, 0xa9];
    assert!(AsciiStr::decode(&wire).is_err());
}

const CONFUSABLES: &[&str] = &[
    "\u{0430}", "\u{0435}", "\u{043E}", "\u{0440}", "\u{0441}", "\u{0445}", "\u{03BF}",
    "\u{0391}", "\u{FF21}", "\u{FF10}", "\u{2044}", "\u{2010}", "\u{2018}", "\u{00A0}",
    "\u{200B}", "\u{FEFF}",
];

#[test]
fn rejects_unicode_confusables() {
    for s in CONFUSABLES {
        assert!(AsciiStr::try_from(*s).is_err(), "confusable {s:?} should be rejected");
    }
}

const MALFORMED_UTF8: &[&[u8]] = &[
    &[0xC0, 0xAF],
    &[0xC0, 0x80],
    &[0xC1, 0x81],
    &[0xE0, 0x80, 0xAF],
    &[0xF0, 0x80, 0x80, 0xAF],
    &[0x80],
    &[0xFF],
    &[0xC3],
    &[0xE2, 0x82],
    &[0xED, 0xA0, 0x80],
];

#[test]
fn rejects_malformed_utf8_corpus() {
    for bytes in MALFORMED_UTF8 {
        assert!(AsciiStr::try_from(*bytes).is_err(), "malformed {bytes:02X?} should be rejected");
    }
}

#[test]
fn ascii_string_owns_and_borrows() {
    let owned = AsciiString::try_from("device-root").unwrap();
    assert_eq!(owned.as_str(), "device-root");
    assert_eq!(owned.as_ascii_str().as_str(), "device-root");
    assert!(AsciiString::try_from("tab\there").is_err());
    assert_eq!(owned.clone().as_str(), "device-root");
}

#[test]
fn ascii_encoding_is_a_text_string() {
    let s = AsciiStr::try_from("kof").unwrap();
    assert_eq!(s.encode(), vec![0x63, b'k', b'o', b'f']);
    // Trailing bytes after the string are ignored.
    let decoded = AsciiStr::decode(&[0x62, b'o', b'k', 0xff]).unwrap();
    assert_eq!(decoded.as_str(), "ok");
    // A byte string is not a text string.
    assert!(AsciiStr::decode(&[0x42, b'o', b'k']).is_err());
}

#[test]
fn ascii_string_cbor_round_trip() {
    let original = AsciiString::try_from("koffer 0.1").unwrap();
    let bytes = original.encode();
    assert_eq!(bytes[0], 0x60 | 10);
    let decoded = AsciiString::decode(&bytes).unwrap();
    assert_eq!(decoded, original);
    assert_eq!(decoded.encode(), bytes);
    assert!(AsciiString::decode(&[0x62, 0xc3, 0xa9]).is_err());
}

#[test]
fn ascii_string_from_an_owned_string() {
    assert_eq!(
        AsciiString::from_string(String::from("abc")).unwrap().as_str(),
        "abc"
    );
    assert!(AsciiString::from_string(String::from("tab\there")).is_err());
}
