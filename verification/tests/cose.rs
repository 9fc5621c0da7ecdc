use koffer::wire::alg::AlgId;
use koffer::wire::ascii::AsciiStr;
use koffer::wire::cose::{CoseEncrypt, CoseSign1, Payload, ProtectedHeader, Recipient, SigStructure};

fn to_hex(bytes: &[u8]) -> String {
    bytes.iter().map(|b| format!("{b:02x}")).collect()
}

#[test]
fn sig_structure_is_the_rfc9052_array() {
    // ["Signature1", h'a10126', h'', h'0102']
    let s = SigStructure::new(AlgId::new(-7), &[], &[0x01, 0x02]);
    assert_eq!(
        to_hex(&s.encode()),
        "846a5369676e61747572653143a101264042 0102".replace(' ', "")
    );
}

#[test]
fn protected_header_is_the_alg_map() {
    assert_eq!(ProtectedHeader::new(AlgId::new(-7)).encode_map(), vec![0xa1, 0x01, 0x26]);
    assert_eq!(ProtectedHeader::new(AlgId::new(3)).alg(), AlgId::new(3));
    // A large codepoint takes a four-byte argument.
    assert_eq!(
        to_hex(&ProtectedHeader::new(AlgId::new(-65538)).encode_map()),
        "a1013a00010001"
    );
}

#[test]
fn sign1_round_trips_with_and_without_kid() {
    let payload = [0x10u8, 0x20, 0x30];
    let signature = [0xEEu8; 8];
    for kid in [None, Some(AsciiStr::try_from("root").unwrap())] {
        let original = CoseSign1::new(AlgId::new(-65537), kid, Payload::Attached(&payload), &signature);
        let bytes = original.encode();
        let decoded = CoseSign1::decode(&bytes).unwrap();
        assert_eq!(decoded, original);
        assert_eq!(decoded.kid(), kid);
        assert_eq!(decoded.signature(), &signature);
        assert_eq!(decoded.encode(), bytes);
    }
}

#[test]
fn sign1_rejects_truncation_and_a_wrong_shape() {
    let signature = [0xEEu8; 4];
    let bytes = CoseSign1::new(AlgId::new(-7), None, Payload::Detached, &signature).encode();
    for cut in 0..bytes.len() {
        assert!(CoseSign1::decode(&bytes[..cut]).is_err(), "prefix of {cut} bytes");
    }
    // An array of three elements is not a COSE_Sign1.
    let mut wrong = bytes.clone();
    wrong[0] = 0x83;
    assert!(CoseSign1::decode(&wrong).is_err());
}

#[test]
fn encrypt_round_trips() {
    let nonce = [0x01u8; 12];
    let ciphertext = [0x02u8; 20];
    let encapsulation = [0x03u8; 40];
    let recipient = Recipient::new(AlgId::new(-65541), Some(AsciiStr::try_from("kem").unwrap()), &encapsulation);
    let original = CoseEncrypt::new(AlgId::new(24), &nonce, &ciphertext, recipient);
    let bytes = original.encode();
    let decoded = CoseEncrypt::decode(&bytes).unwrap();
    assert_eq!(decoded, original);
    assert_eq!(decoded.nonce(), &nonce);
    assert_eq!(decoded.ciphertext(), &ciphertext);
    assert_eq!(decoded.recipient().encapsulation(), &encapsulation);
    assert_eq!(decoded.recipient().kem_alg(), AlgId::new(-65541));
    assert_eq!(decoded.encode(), bytes);
}
