//! Fixed-size cryptographic digests.
use vstd::prelude::*;
use crate::wire::cbor::{parse_bytes, push_string, read_string, ser_bytes, DecodeError, MAJOR_BYTES};

verus! {

/// A SHA-256 digest.
pub type Digest256 = Digest<32>;

/// A fixed-size hash digest of `N` bytes.
///
/// Encoded on the wire as a CBOR byte string (never an array of integers); decoding
/// rejects any byte string whose length is not exactly `N`.
#[derive(Debug, Clone, Copy, PartialEq, Eq, Hash)]
pub struct Digest<const N: usize>([u8; N]);

impl<const N: usize> View for Digest<N> {
    type V = Seq<u8>;

    closed spec fn view(&self) -> Seq<u8> {
        self.0@
    }
}

impl<const N: usize> Digest<N> {
    /// Wraps raw digest bytes.
    pub fn new(bytes: [u8; N]) -> (r: Self)
        ensures
            r@ == bytes@,
    {
        Digest(bytes)
    }

    /// The digest bytes.
    pub fn as_bytes(&self) -> (r: &[u8; N])
        ensures
            r@ == self@,
    {
        &self.0
    }

    /// Appends the digest as a CBOR byte string.
    pub fn encode_into(&self, out: &mut Vec<u8>)
        ensures
            final(out)@ == old(out)@ + ser_bytes(self@),
    {
        push_string(out, MAJOR_BYTES, self.0.as_slice());
    }

    /// Reads a byte string of exactly `N` bytes at `pos`.
    pub fn decode_from(s: &[u8], pos: usize) -> (r: Result<(Self, usize), DecodeError>)
        requires
            pos <= s@.len(),
        ensures
            match parse_bytes(s@.skip(pos as int)) {
                Some((c, n)) => if c.len() == N {
                    r matches Ok((d, p)) && d@ == c && p == pos + n && pos <= p <= s@.len()
                } else {
                    r is Err
                },
                None => r is Err,
            },
    {
        let (content, p) = read_string(s, pos, MAJOR_BYTES)?;
        if content.len() != N {
            return Err(DecodeError);
        }
        let mut bytes = [0u8; N];
        let mut i: usize = 0;
        while i < N
            invariant
                i <= N,
                content@.len() == N,
                bytes@.len() == N,
                forall|j: int| 0 <= j < i ==> bytes@[j] == content@[j],
            decreases N - i,
        {
            bytes[i] = content[i];
            i = i + 1;
        }
        assert(bytes@ =~= content@);
        Ok((Digest(bytes), p))
    }
}

impl<const N: usize> vstd::std_specs::convert::FromSpecImpl<[u8; N]> for Digest<N> {
    open spec fn obeys_from_spec() -> bool {
        true
    }

    closed spec fn from_spec(bytes: [u8; N]) -> Digest<N> {
        Digest(bytes)
    }
}

impl<const N: usize> From<[u8; N]> for Digest<N> {
    fn from(bytes: [u8; N]) -> (r: Self)
        ensures
            r@ == bytes@,
    {
        Digest(bytes)
    }
}

impl<const N: usize> Digest<N> {
    /// The digest as a CBOR byte string.
    pub fn encode(&self) -> (r: Vec<u8>)
        ensures
            r@ == ser_bytes(self@),
    {
        let mut out = Vec::new();
        self.encode_into(&mut out);
        assert(out@ =~= ser_bytes(self@));
        out
    }

    /// Reads a byte string of exactly `N` bytes from the front of `s`.
    pub fn decode(s: &[u8]) -> (r: Result<Self, DecodeError>)
        ensures
            match parse_bytes(s@) {
                Some((c, _)) => if c.len() == N {
                    r matches Ok(d) && d@ == c
                } else {
                    r is Err
                },
                None => r is Err,
            },
    {
        assert(s@.skip(0) =~= s@);
        match Digest::decode_from(s, 0) {
            Ok((d, _)) => Ok(d),
            Err(e) => Err(e),
        }
    }
}

} // verus!
