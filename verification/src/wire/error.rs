//! Protocol error codes.
use vstd::prelude::*;
use crate::wire::cbor::{parse_uint, push_uint, read_uint, ser_uint, DecodeError};

verus! {

/// A protocol or parse error code, carried in the wire `Error` reply.
///
/// Each named variant has a stable codepoint. A code we don't recognize decodes to
/// `Unknown`, keeping the raw value for forward compatibility. Encoded on the wire as
/// a CBOR unsigned integer.
#[derive(Debug, Clone, Copy, PartialEq, Eq, Hash, Structural)]
pub enum ErrorCode {
    /// The request could not be parsed (bad CBOR, bad structure, or non-ASCII text).
    Malformed,
    /// The requested signing or encryption algorithm is not supported.
    UnsupportedAlgorithm,
    /// The request kind is not recognized or supported.
    UnknownRequest,
    /// The operation needs earlier setup that has not happened yet.
    NotReady,
    /// The user did not confirm the operation (declined or timed out).
    ConsentDenied,
    /// A signature or integrity check failed.
    VerificationFailed,
    /// An unexpected device-side failure.
    Internal,
    /// A code with no named variant, kept verbatim. Produced only for codes not
    /// assigned above; do not construct it with an already-assigned code.
    Unknown(u32),
}

/// The stable wire codepoint of each error.
pub open spec fn spec_codepoint(c: ErrorCode) -> u32 {
    match c {
        ErrorCode::Malformed => 1,
        ErrorCode::UnsupportedAlgorithm => 2,
        ErrorCode::UnknownRequest => 3,
        ErrorCode::NotReady => 4,
        ErrorCode::ConsentDenied => 5,
        ErrorCode::VerificationFailed => 6,
        ErrorCode::Internal => 7,
        ErrorCode::Unknown(code) => code,
    }
}

/// The error a codepoint stands for.
pub open spec fn spec_from_code(code: u32) -> ErrorCode {
    if code == 1 {
        ErrorCode::Malformed
    } else if code == 2 {
        ErrorCode::UnsupportedAlgorithm
    } else if code == 3 {
        ErrorCode::UnknownRequest
    } else if code == 4 {
        ErrorCode::NotReady
    } else if code == 5 {
        ErrorCode::ConsentDenied
    } else if code == 6 {
        ErrorCode::VerificationFailed
    } else if code == 7 {
        ErrorCode::Internal
    } else {
        ErrorCode::Unknown(code)
    }
}

/// Whether `c` is a value that decoding can produce: `Unknown` only carries
/// codepoints that no named variant has.
pub open spec fn is_canonical(c: ErrorCode) -> bool {
    match c {
        ErrorCode::Unknown(code) => code == 0 || code > 7,
        _ => true,
    }
}

impl ErrorCode {
    /// The stable wire codepoint for this error.
    pub fn codepoint(self) -> (r: u32)
        ensures
            r == spec_codepoint(self),
    {
        match self {
            ErrorCode::Malformed => 1,
            ErrorCode::UnsupportedAlgorithm => 2,
            ErrorCode::UnknownRequest => 3,
            ErrorCode::NotReady => 4,
            ErrorCode::ConsentDenied => 5,
            ErrorCode::VerificationFailed => 6,
            ErrorCode::Internal => 7,
            ErrorCode::Unknown(code) => code,
        }
    }

    /// The error for a codepoint: the named variant, or `Unknown` keeping the value.
    pub fn from_code(code: u32) -> (r: Self)
        ensures
            r == spec_from_code(code),
    {
        match code {
            1 => ErrorCode::Malformed,
            2 => ErrorCode::UnsupportedAlgorithm,
            3 => ErrorCode::UnknownRequest,
            4 => ErrorCode::NotReady,
            5 => ErrorCode::ConsentDenied,
            6 => ErrorCode::VerificationFailed,
            7 => ErrorCode::Internal,
            other => ErrorCode::Unknown(other),
        }
    }
}

impl vstd::std_specs::convert::FromSpecImpl<u32> for ErrorCode {
    open spec fn obeys_from_spec() -> bool {
        true
    }

    open spec fn from_spec(code: u32) -> ErrorCode {
        spec_from_code(code)
    }
}

impl From<u32> for ErrorCode {
    fn from(code: u32) -> (r: Self) {
        ErrorCode::from_code(code)
    }
}

/// Reading a codepoint back gives the codepoint; the error a codepoint stands for
/// is canonical.
pub proof fn lemma_codepoint_of_code(code: u32)
    ensures
        spec_codepoint(spec_from_code(code)) == code,
        is_canonical(spec_from_code(code)),
{
}

/// A canonical error survives the trip through its codepoint.
pub proof fn lemma_code_of_codepoint(c: ErrorCode)
    requires
        is_canonical(c),
    ensures
        spec_from_code(spec_codepoint(c)) == c,
{
}

// ---- CBOR: an unsigned integer ----

/// Reads an error code: an unsigned integer that fits a `u32`, mapped to its code.
pub open spec fn parse_error_code(s: Seq<u8>) -> Option<(ErrorCode, int)> {
    match parse_uint(s, u32::MAX as u64) {
        Some((v, n)) => Some((spec_from_code(v as u32), n)),
        None => None,
    }
}

/// An error code on the wire: its codepoint as an unsigned integer.
pub open spec fn ser_error_code(c: ErrorCode) -> Seq<u8> {
    ser_uint(spec_codepoint(c) as u64)
}

/// Appends the error code.
pub fn push_error_code(out: &mut Vec<u8>, c: ErrorCode)
    ensures
        final(out)@ == old(out)@ + ser_error_code(c),
{
    push_uint(out, c.codepoint() as u64);
}

/// Reads an error code at `pos`.
pub fn read_error_code(s: &[u8], pos: usize) -> (r: Result<(ErrorCode, usize), DecodeError>)
    requires
        pos <= s@.len(),
    ensures
        match parse_error_code(s@.skip(pos as int)) {
            None => r is Err,
            Some((v, n)) => r matches Ok((v2, p)) && v2 == v && p == pos + n && pos <= p <= s@.len(),
        },
{
    let (v, p) = read_uint(s, pos, 0xffff_ffff)?;
    Ok((ErrorCode::from_code(v as u32), p))
}

} // verus!
