//! Length-bounded byte strings on the wire.
use vstd::prelude::*;
use crate::crypto::bytes::{Bytes, BytesError};
use crate::wire::cbor::{
    lemma_string_roundtrip, parse_bytes, push_string, read_string, ser_bytes, DecodeError,
    MAJOR_BYTES,
};

verus! {

/// A wire byte string of at most `MAX` bytes.
///
/// Wraps a [`Bytes<MAX>`] and adds the CBOR encoding: it encodes as a CBOR byte string,
/// and decoding rejects any byte string longer than `MAX`.
#[derive(Debug, Hash)]
pub struct CborBytes<const MAX: usize>(Bytes<MAX>);

impl<const MAX: usize> View for CborBytes<MAX> {
    type V = Seq<u8>;

    closed spec fn view(&self) -> Seq<u8> {
        self.0@
    }
}

impl<const MAX: usize> CborBytes<MAX> {
    /// Creates an empty buffer.
    pub fn new() -> (r: Self)
        ensures
            r@ == Seq::<u8>::empty(),
    {
        CborBytes(Bytes::new())
    }

    /// The contents as a byte slice.
    pub fn as_slice(&self) -> (r: &[u8])
        ensures
            r@ == self@,
            r@.len() <= MAX,
    {
        self.0.as_slice()
    }

    /// Copies `bytes` into a new buffer, or `TooLong` if there are more than `MAX`.
    pub fn from_slice(bytes: &[u8]) -> (r: Result<Self, BytesError>)
        ensures
            bytes@.len() <= MAX ==> (r matches Ok(b) && b@ == bytes@),
            bytes@.len() > MAX ==> r == Err::<Self, BytesError>(
                BytesError::TooLong { len: bytes@.len() as usize, max: MAX },
            ),
    {
        match Bytes::from_slice(bytes) {
            Ok(b) => Ok(CborBytes(b)),
            Err(e) => Err(e),
        }
    }

    /// Appends the contents as a CBOR byte string.
    pub fn encode_into(&self, out: &mut Vec<u8>)
        ensures
            final(out)@ == old(out)@ + ser_bytes(self@),
    {
        push_string(out, MAJOR_BYTES, self.0.as_slice());
    }

    /// The contents as a CBOR byte string.
    pub fn encode(&self) -> (r: Vec<u8>)
        ensures
            r@ == ser_bytes(self@),
    {
        let mut out = Vec::new();
        self.encode_into(&mut out);
        assert(out@ =~= ser_bytes(self@));
        out
    }

    /// Reads a byte string of at most `MAX` bytes at `pos`.
    pub fn decode_from(s: &[u8], pos: usize) -> (r: Result<(Self, usize), DecodeError>)
        requires
            pos <= s@.len(),
        ensures
            match parse_bytes(s@.skip(pos as int)) {
                Some((c, n)) => if c.len() <= MAX {
                    r matches Ok((b, p)) && b@ == c && p == pos + n && pos <= p <= s@.len()
                } else {
                    r is Err
                },
                None => r is Err,
            },
    {
        let (content, p) = read_string(s, pos, MAJOR_BYTES)?;
        match Bytes::from_slice(content) {
            Ok(b) => Ok((CborBytes(b), p)),
            Err(_) => Err(DecodeError),
        }
    }

    /// Reads a byte string of at most `MAX` bytes from the front of `s`.
    pub fn decode(s: &[u8]) -> (r: Result<Self, DecodeError>)
        ensures
            match parse_bytes(s@) {
                Some((c, _)) => if c.len() <= MAX {
                    r matches Ok(b) && b@ == c
                } else {
                    r is Err
                },
                None => r is Err,
            },
    {
        assert(s@.skip(0) =~= s@);
        match CborBytes::decode_from(s, 0) {
            Ok((b, _)) => Ok(b),
            Err(e) => Err(e),
        }
    }
}

/// Decoding what `encode` wrote gives back the same contents and consumes exactly the
/// encoding, whatever follows it.
pub proof fn lemma_cbor_bytes_roundtrip(content: Seq<u8>, rest: Seq<u8>)
    requires
        content.len() <= u64::MAX,
    ensures
        parse_bytes(ser_bytes(content) + rest) == Some((content, ser_bytes(content).len() as int)),
{
    lemma_string_roundtrip(MAJOR_BYTES, content, rest);
}

impl<const MAX: usize> Clone for CborBytes<MAX> {
    fn clone(&self) -> (r: Self)
        ensures
            r@ == self@,
    {
        CborBytes(self.0.clone())
    }
}

impl<const MAX: usize> Default for CborBytes<MAX> {
    fn default() -> (r: Self)
        ensures
            r@ == Seq::<u8>::empty(),
    {
        CborBytes::new()
    }
}

impl<'a, const MAX: usize> vstd::std_specs::convert::TryFromSpecImpl<&'a [u8]> for CborBytes<MAX> {
    open spec fn obeys_try_from_spec() -> bool {
        false
    }

    open spec fn try_from_spec(bytes: &'a [u8]) -> Result<Self, BytesError> {
        Err(BytesError::TooLong { len: 0, max: 0 })
    }
}

impl<'a, const MAX: usize> TryFrom<&'a [u8]> for CborBytes<MAX> {
    type Error = BytesError;

    fn try_from(bytes: &'a [u8]) -> (r: Result<Self, BytesError>)
        ensures
            bytes@.len() <= MAX ==> (r matches Ok(b) && b@ == bytes@),
            bytes@.len() > MAX ==> r == Err::<Self, BytesError>(
                BytesError::TooLong { len: bytes@.len() as usize, max: MAX },
            ),
    {
        CborBytes::from_slice(bytes)
    }
}

impl<const MAX: usize> vstd::std_specs::cmp::PartialEqSpecImpl for CborBytes<MAX> {
    open spec fn obeys_eq_spec() -> bool {
        true
    }

    open spec fn eq_spec(&self, other: &Self) -> bool {
        self@ == other@
    }
}

impl<const MAX: usize> PartialEq for CborBytes<MAX> {
    fn eq(&self, other: &Self) -> (r: bool) {
        self.0.ct_eq(&other.0)
    }
}

impl<const MAX: usize> Eq for CborBytes<MAX> {
}

} // verus!
