use koffer::crypto::bytes::{Bytes, BytesError};

const TEST_MAX: usize = 4;

/// Throwaway value type over a bounded buffer, built the way the library's key and
/// signature types are.
#[derive(Debug, Clone, PartialEq, Eq)]
struct TestValue(Bytes<TEST_MAX>);

impl TestValue {
    fn as_slice(&self) -> &[u8] {
        self.0.as_slice()
    }
}

impl TryFrom<&[u8]> for TestValue {
    type Error = BytesError;

    fn try_from(bytes: &[u8]) -> Result<Self, BytesError> {
        Bytes::try_from(bytes).map(Self)
    }
}

#[test]
fn lib_constructs_from_bytes_and_reads_back() {
    let v = TestValue::try_from(&[1, 2, 3][..]).unwrap();
    assert_eq!(v.as_slice(), &[1, 2, 3]);
}

#[test]
fn lib_rejects_over_capacity() {
    let over = [0u8; TEST_MAX + 1];
    assert!(TestValue::try_from(&over[..]).is_err());
}
