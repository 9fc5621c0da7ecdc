use koffer::wire::cbor::{push_head, push_uint, read_container, read_uint, MAJOR_ARRAY};

/// A two-field record, written as the CBOR array `[a, b]`.
#[derive(Debug, PartialEq)]
struct Sample {
    a: u32,
    b: u32,
}

fn encode(value: &Sample) -> Vec<u8> {
    let mut out = Vec::new();
    push_head(&mut out, MAJOR_ARRAY, 2);
    push_uint(&mut out, value.a as u64);
    push_uint(&mut out, value.b as u64);
    out
}

fn decode(bytes: &[u8]) -> Sample {
    let (len, p) = read_container(bytes, 0, MAJOR_ARRAY).expect("array");
    assert_eq!(len, Some(2));
    let (a, p) = read_uint(bytes, p, u32::MAX as u64).expect("a");
    let (b, _) = read_uint(bytes, p, u32::MAX as u64).expect("b");
    Sample { a: a as u32, b: b as u32 }
}

#[test]
fn codec_round_trip() {
    let value = Sample { a: 7, b: 42 };

    let bytes = encode(&value);
    let decoded: Sample = decode(&bytes);
    assert_eq!(decoded, value);

    // deterministic: re-encoding the same value yields identical bytes
    let bytes2 = encode(&decoded);
    assert_eq!(bytes, bytes2);
    assert_eq!(bytes, vec![0x82, 0x07, 0x18, 0x2a]);
}
