//! Algorithm identifiers carried on the wire.
use vstd::prelude::*;
use crate::wire::cbor::{parse_i64, push_i64, read_i64, ser_i64, DecodeError};

verus! {

/// A COSE algorithm identifier (codepoint), carried opaquely.
///
/// The wire layer only ferries the integer; mapping an id to an algorithm lives in the
/// crypto layer. Encoded on the wire as a bare CBOR integer.
#[derive(Debug, Clone, Copy, PartialEq, Eq, Hash, Structural)]
pub struct AlgId(i64);

impl View for AlgId {
    type V = i64;

    closed spec fn view(&self) -> i64 {
        self.0
    }
}

impl AlgId {
    /// Wraps a COSE algorithm identifier.
    pub fn new(id: i64) -> (r: Self)
        ensures
            r@ == id,
    {
        AlgId(id)
    }

    /// The integer identifier.
    pub fn get(self) -> (r: i64)
        ensures
            r == self@,
    {
        self.0
    }
}

impl vstd::std_specs::convert::FromSpecImpl<i64> for AlgId {
    open spec fn obeys_from_spec() -> bool {
        true
    }

    closed spec fn from_spec(id: i64) -> AlgId {
        AlgId(id)
    }
}

impl From<i64> for AlgId {
    fn from(id: i64) -> (r: Self)
        ensures
            r@ == id,
    {
        AlgId(id)
    }
}

/// Two algorithm ids are equal exactly when their integer identifiers are: the id is
/// carried opaquely, any `i64` included.
pub proof fn lemma_alg_id_eq(a: AlgId, b: AlgId)
    ensures
        (a == b) == (a@ == b@),
{
}

/// Appends `alg` as a CBOR integer.
pub fn push_alg(out: &mut Vec<u8>, alg: AlgId)
    ensures
        final(out)@ == old(out)@ + ser_i64(alg@),
{
    push_i64(out, alg.0);
}

/// Reads an algorithm identifier at `pos`.
pub fn read_alg(s: &[u8], pos: usize) -> (r: Result<(AlgId, usize), DecodeError>)
    requires
        pos <= s@.len(),
    ensures
        match parse_i64(s@.skip(pos as int)) {
            None => r is Err,
            Some((v, n)) => r matches Ok((a, p)) && a@ == v && p == pos + n && pos <= p <= s@.len(),
        },
{
    let (v, p) = read_i64(s, pos)?;
    Ok((AlgId(v), p))
}

} // verus!
