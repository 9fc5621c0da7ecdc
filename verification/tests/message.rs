use koffer::wire::alg::AlgId;
use koffer::wire::ascii::AsciiStr;
use koffer::wire::cose::{CoseEncrypt, CoseSign1, Payload, Recipient};
use koffer::wire::error::ErrorCode;
use koffer::wire::manifest::{Manifest, SuitDigest};
use koffer::wire::message::{
    read_alg_list, AlgList, Request, Response, MAX_ALGS, REQUEST_ATTEST, REQUEST_GET_INFO,
    REQUEST_INIT_KEYS, REQUEST_SIGN, RESPONSE_ERROR, RESPONSE_INFO,
};

fn to_hex(bytes: &[u8]) -> String {
    bytes.iter().map(|b| format!("{b:02x}")).collect()
}

#[test]
fn decodes_get_info_without_alloc() {
    let wire = [0x81, REQUEST_GET_INFO]; // array(1) [ tag ]
    let r = Request::decode(&wire).expect("decode");
    assert_eq!(r, Request::GetInfo);
}

#[test]
fn decodes_init_keys_without_alloc() {
    let wire = [0x83, REQUEST_INIT_KEYS, 0x01, 0x02]; // array(3) [ tag, 1, 2 ]
    let r = Request::decode(&wire).expect("decode");
    assert_eq!(
        r,
        Request::InitKeys {
            sig_alg: AlgId::new(1),
            kem_alg: AlgId::new(2),
        }
    );
}

#[test]
fn decodes_attest_without_alloc() {
    let wire = [0x82, REQUEST_ATTEST, 0x43, 0xAA, 0xBB, 0xCC]; // array(2) [ tag, h'AABBCC' ]
    let r = Request::decode(&wire).expect("decode");
    assert_eq!(
        r,
        Request::Attest {
            challenge: &[0xAA, 0xBB, 0xCC],
        }
    );
}

#[test]
fn rejects_unknown_request_tag() {
    let wire = [0x81, 0x09]; // array(1), unknown tag 9
    assert!(Request::decode(&wire).is_err());
}

#[test]
fn rejects_wrong_request_array_length() {
    let wire = [0x82, REQUEST_INIT_KEYS, 0x01]; // InitKeys tag but array(2)
    assert!(Request::decode(&wire).is_err());
}

#[test]
fn rejects_non_ascii_error_detail() {
    let wire = [
        0x83,
        RESPONSE_ERROR,
        0x01, // array(3), Error tag, code 1
        0x65,
        0x63,
        0x61,
        0x66,
        0xc3,
        0xa9, // detail = "café"
    ];
    assert!(Response::decode(&wire).is_err());
}

#[test]
fn alg_list_decode_rejects_overflow() {
    // A CBOR array of MAX_ALGS + 1 small-integer ids.
    let mut wire = [0u8; 1 + (MAX_ALGS + 1)];
    wire[0] = 0x80 | (MAX_ALGS as u8 + 1);
    for i in 0..=MAX_ALGS {
        wire[1 + i] = i as u8;
    }
    assert!(read_alg_list(&wire, 0).is_err());
}

#[test]
fn alg_list_decode_accepts_a_full_list() {
    let mut wire = [0u8; 1 + MAX_ALGS];
    wire[0] = 0x80 | (MAX_ALGS as u8);
    for i in 0..MAX_ALGS {
        wire[1 + i] = i as u8;
    }
    let (list, used) = read_alg_list(&wire, 0).expect("decode");
    assert_eq!(used, wire.len());
    assert_eq!(list.len(), MAX_ALGS);
    assert_eq!(list.get(MAX_ALGS - 1), AlgId::new(MAX_ALGS as i64 - 1));
}

#[test]
fn alg_list_push_hands_back_the_overflowing_id() {
    let mut list = AlgList::new();
    for i in 0..MAX_ALGS {
        list.push(AlgId::new(i as i64)).unwrap();
    }
    assert_eq!(list.push(AlgId::new(99)), Err(AlgId::new(99)));
    assert_eq!(list.len(), MAX_ALGS);
}

fn round_trip_request(original: Request) {
    let bytes = original.encode();
    let decoded = Request::decode(&bytes).expect("decode");
    assert_eq!(decoded, original);
    assert_eq!(decoded.encode(), bytes); // deterministic
}

fn round_trip_response(original: Response) {
    let bytes = original.encode();
    let decoded = Response::decode(&bytes).expect("decode");
    assert_eq!(decoded, original);
    assert_eq!(decoded.encode(), bytes); // deterministic
}

#[test]
fn request_get_info_round_trips() {
    round_trip_request(Request::GetInfo);
}

#[test]
fn request_init_keys_round_trips() {
    round_trip_request(Request::InitKeys {
        sig_alg: AlgId::new(-7),
        kem_alg: AlgId::new(-48),
    });
}

#[test]
fn request_handshake_round_trips() {
    let payload = [0x01, 0x02, 0x03, 0x04];
    round_trip_request(Request::Handshake { payload: &payload });
}

#[test]
fn request_sign_round_trips() {
    let digest_bytes = [0x55u8; 32];
    let digest = SuitDigest::new(AlgId::new(-16), &digest_bytes);
    let prompt = AsciiStr::try_from("sign firmware v2").unwrap();
    round_trip_request(Request::Sign {
        sig_alg: AlgId::new(-7),
        digest,
        prompt,
    });
}

#[test]
fn request_install_encrypted_image_round_trips() {
    let class_id = AsciiStr::try_from("acme-rtos").unwrap();
    let digest_bytes = [0x11u8; 32];
    let payload_digest = SuitDigest::new(AlgId::new(-16), &digest_bytes);
    let manifest = Manifest::new(1, 7, class_id, payload_digest, 0);
    let encapsulation = [0xEEu8; 32];
    let recipient = Recipient::new(AlgId::new(-48), None, &encapsulation);
    let nonce = [0x22u8; 12];
    let ciphertext = [0xCDu8; 48];
    let image = CoseEncrypt::new(AlgId::new(3), &nonce, &ciphertext, recipient);
    round_trip_request(Request::InstallEncryptedImage { image, manifest });
}

#[test]
fn request_attest_round_trips() {
    let challenge = [0x99u8; 16];
    round_trip_request(Request::Attest {
        challenge: &challenge,
    });
}

#[test]
fn response_info_round_trips() {
    let firmware_version = AsciiStr::try_from("koffer 0.1").unwrap();
    let mut sig_algs = AlgList::new();
    sig_algs.push(AlgId::new(-7)).unwrap();
    let mut kem_algs = AlgList::new();
    kem_algs.push(AlgId::new(-48)).unwrap();
    kem_algs.push(AlgId::new(-49)).unwrap();
    round_trip_response(Response::Info {
        firmware_version,
        sig_algs,
        kem_algs,
        keys_are_present: true,
        entropy_is_healthy: true,
    });
}

#[test]
fn response_public_keys_round_trips() {
    let sig_pk = [0x11u8; 32];
    let kem_pk = [0x22u8; 16];
    round_trip_response(Response::PublicKeys {
        sig_alg: AlgId::new(-7),
        sig_public_key: &sig_pk,
        kem_alg: AlgId::new(-48),
        kem_public_key: &kem_pk,
    });
}

#[test]
fn response_error_round_trips() {
    let detail = AsciiStr::try_from("bad request").unwrap();
    round_trip_response(Response::Error {
        code: ErrorCode::Malformed,
        detail,
    });
}

#[test]
fn response_cose_sign1_round_trips() {
    let kid = AsciiStr::try_from("device-root").unwrap();
    let signature = [0xABu8; 64];
    round_trip_response(Response::CoseSign1(CoseSign1::new(
        AlgId::new(-7),
        Some(kid),
        Payload::Detached,
        &signature,
    )));
}

#[test]
fn response_boot_decision_round_trips() {
    let image_digest = [0x77u8; 32];
    round_trip_response(Response::BootDecision {
        image_is_accepted: true,
        image_digest: &image_digest,
    });
}

#[test]
fn response_attestation_round_trips() {
    let kid = AsciiStr::try_from("endorsement").unwrap();
    let measurement = [0x33u8; 20];
    let signature = [0xCDu8; 64];
    round_trip_response(Response::Attestation(CoseSign1::new(
        AlgId::new(-49),
        Some(kid),
        Payload::Attached(&measurement),
        &signature,
    )));
}

#[test]
fn rejects_non_ascii_info_fw() {
    // Info with a non-ASCII firmware string.
    let wire = [
        0x86,
        RESPONSE_INFO, // array(6), Info tag
        0x65,
        0x63,
        0x61,
        0x66,
        0xc3,
        0xa9, // fw = "café"
    ];
    assert!(Response::decode(&wire).is_err());
}

#[test]
fn rejects_non_ascii_sign_summary() {
    // Sign with a valid alg and digest, then a non-ASCII prompt.
    let wire = [
        0x84,
        REQUEST_SIGN, // array(4), Sign tag
        0x26,         // alg = -7
        0x82,
        0x2f,
        0x42,
        0xAB,
        0xCD, // digest = [-16, h'ABCD']
        0x65,
        0x63,
        0x61,
        0x66,
        0xc3,
        0xa9, // prompt = "café"
    ];
    assert!(Request::decode(&wire).is_err());
}

fn check_request_kat(msg: Request, expected_hex: &str) {
    let bytes = msg.encode();
    assert_eq!(to_hex(&bytes), expected_hex);
    let decoded = Request::decode(&bytes).expect("decode");
    assert_eq!(decoded, msg);
}

fn check_response_kat(msg: Response, expected_hex: &str) {
    let bytes = msg.encode();
    assert_eq!(to_hex(&bytes), expected_hex);
    let decoded = Response::decode(&bytes).expect("decode");
    assert_eq!(decoded, msg);
}

#[test]
fn request_kats() {
    check_request_kat(Request::GetInfo, "8102");
    check_request_kat(
        Request::InitKeys {
            sig_alg: AlgId::new(-7),
            kem_alg: AlgId::new(-48),
        },
        "830326382f",
    );
    let dbytes = [0xAA, 0xBB, 0xCC, 0xDD];
    check_request_kat(
        Request::Sign {
            sig_alg: AlgId::new(-7),
            digest: SuitDigest::new(AlgId::new(-16), &dbytes),
            prompt: AsciiStr::try_from("sign").unwrap(),
        },
        "840426822f44aabbccdd647369676e",
    );
    let mdig = [0xAB, 0xCD];
    let manifest = Manifest::new(
        1,
        1,
        AsciiStr::try_from("kof").unwrap(),
        SuitDigest::new(AlgId::new(-16), &mdig),
        0,
    );
    let nonce = [0xAA, 0xBB];
    let ct = [0xCD, 0xCE];
    let enc = [0xEE, 0xFF];
    let recipient = Recipient::new(AlgId::new(-48), None, &enc);
    let image = CoseEncrypt::new(AlgId::new(3), &nonce, &ct, recipient);
    check_request_kat(
        Request::InstallEncryptedImage { image, manifest },
        "83058443a10103a10542aabb42cdce818344a101382fa042eeffa50101020103636b6f6604822f42abcd0500",
    );
    let challenge = [0x99, 0x88];
    check_request_kat(
        Request::Attest {
            challenge: &challenge,
        },
        "8206429988",
    );
    let hp = [0x01, 0x02];
    check_request_kat(Request::Handshake { payload: &hp }, "8201420102");
}

#[test]
fn response_kats() {
    let mut sig_algs = AlgList::new();
    sig_algs.push(AlgId::new(-7)).unwrap();
    let mut kem_algs = AlgList::new();
    kem_algs.push(AlgId::new(-48)).unwrap();
    check_response_kat(
        Response::Info {
            firmware_version: AsciiStr::try_from("kof").unwrap(),
            sig_algs,
            kem_algs,
            keys_are_present: true,
            entropy_is_healthy: false,
        },
        "8601636b6f66812681382ff5f4",
    );
    let spk = [0x11, 0x22];
    let kpk = [0x33, 0x44];
    check_response_kat(
        Response::PublicKeys {
            sig_alg: AlgId::new(-7),
            sig_public_key: &spk,
            kem_alg: AlgId::new(-48),
            kem_public_key: &kpk,
        },
        "850226421122382f423344",
    );
    let sig1 = [0xAB, 0xCD];
    check_response_kat(
        Response::CoseSign1(CoseSign1::new(
            AlgId::new(-7),
            Some(AsciiStr::try_from("kid").unwrap()),
            Payload::Detached,
            &sig1,
        )),
        "82038443a10126a104636b6964f642abcd",
    );
    let meas = [0x77, 0x88];
    check_response_kat(
        Response::BootDecision {
            image_is_accepted: true,
            image_digest: &meas,
        },
        "8304f5427788",
    );
    let amsg = [0x33];
    let asig = [0xCD];
    check_response_kat(
        Response::Attestation(CoseSign1::new(
            AlgId::new(-49),
            Some(AsciiStr::try_from("kid").unwrap()),
            Payload::Attached(&amsg),
            &asig,
        )),
        "82058444a1013830a104636b6964413341cd",
    );
    check_response_kat(
        Response::Error {
            code: ErrorCode::Malformed,
            detail: AsciiStr::try_from("bad").unwrap(),
        },
        "83060163626164",
    );
}

#[test]
fn alg_id_equality_follows_the_number() {
    for (x, y) in [(-7i64, -7i64), (-7, 7), (i64::MIN, i64::MIN), (0, i64::MAX)] {
        assert_eq!(AlgId::new(x) == AlgId::new(y), x == y);
        assert_eq!(AlgId::new(x).get(), x);
        assert_eq!(AlgId::from(x).get(), x);
    }
}
