use koffer::wire::alg::AlgId;
use koffer::wire::ascii::AsciiStr;
use koffer::wire::manifest::{Manifest, SuitDigest};
use koffer::wire::message::{AlgList, Request, Response};

#[test]
fn a_generic_cbor_decoder_reads_what_the_library_writes() {
    let digest_bytes = [0xABu8; 4];
    let request = Request::Sign {
        sig_alg: AlgId::new(-65537),
        digest: SuitDigest::new(AlgId::new(-16), &digest_bytes),
        prompt: AsciiStr::try_from("ok?").unwrap(),
    };
    let bytes = request.encode();
    let mut d = minicbor::Decoder::new(&bytes);
    assert_eq!(d.array().unwrap(), Some(4));
    assert_eq!(d.u8().unwrap(), 4);
    assert_eq!(d.i64().unwrap(), -65537);
    assert_eq!(d.array().unwrap(), Some(2));
    assert_eq!(d.i64().unwrap(), -16);
    assert_eq!(d.bytes().unwrap(), &digest_bytes);
    assert_eq!(d.str().unwrap(), "ok?");
    assert_eq!(d.position(), bytes.len());
}

#[test]
fn the_library_reads_what_a_generic_cbor_encoder_writes() {
    let mut e = minicbor::Encoder::new(Vec::new());
    e.array(6).unwrap().u8(1).unwrap();
    e.str("fw 1.2").unwrap();
    e.array(2).unwrap().i64(-65537).unwrap().i64(-65538).unwrap();
    e.array(0).unwrap();
    e.bool(false).unwrap().bool(true).unwrap();
    let bytes = e.into_writer();

    let mut sig_algs = AlgList::new();
    sig_algs.push(AlgId::new(-65537)).unwrap();
    sig_algs.push(AlgId::new(-65538)).unwrap();
    let expected = Response::Info {
        firmware_version: AsciiStr::try_from("fw 1.2").unwrap(),
        sig_algs,
        kem_algs: AlgList::new(),
        keys_are_present: false,
        entropy_is_healthy: true,
    };
    assert_eq!(Response::decode(&bytes).unwrap(), expected);
}

#[test]
fn a_manifest_is_a_map_with_ascending_integer_labels() {
    let digest_bytes = [0x01u8, 0x02];
    let manifest = Manifest::new(1, 300, AsciiStr::try_from("kof").unwrap(), SuitDigest::new(AlgId::new(-16), &digest_bytes), 2)
        .with_version_string(AsciiStr::try_from("1.0").unwrap());
    let bytes = manifest.encode();
    let mut d = minicbor::Decoder::new(&bytes);
    assert_eq!(d.map().unwrap(), Some(6));
    let mut last = 0u8;
    for _ in 0..6 {
        let label = d.u8().unwrap();
        assert!(label > last);
        last = label;
        d.skip().unwrap();
    }
    assert_eq!(d.position(), bytes.len());
}
