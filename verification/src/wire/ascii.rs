//! Printable-ASCII-validated strings for externally-supplied text.
//!
//! Identifiers, labels, and displayed strings are constrained to printable 7-bit US-ASCII
//! (0x20-0x7E). Bytes outside that range are rejected at the parse boundary, never silently
//! transcoded.
use vstd::prelude::*;
use vstd::utf8::*;
use vstd::string::*;
use crate::wire::cbor::{
    lemma_string_roundtrip, parse_string, push_string, read_string, ser_string, DecodeError, MAJOR_TEXT,
};

verus! {

/// Error returned when input contains a byte outside printable 7-bit US-ASCII (0x20-0x7E).
#[derive(Debug, Clone, Copy, PartialEq, Eq, Structural)]
pub struct AsciiError;

/// The lowest and highest printable 7-bit US-ASCII bytes (space and `~`).
pub const PRINTABLE_FIRST: u8 = 0x20;
pub const PRINTABLE_LAST: u8 = 0x7e;

/// Whether `b` is printable 7-bit US-ASCII.
pub open spec fn is_printable_byte(b: u8) -> bool {
    PRINTABLE_FIRST <= b <= PRINTABLE_LAST
}

/// Whether every byte of `bytes` is printable 7-bit US-ASCII.
pub open spec fn is_printable(bytes: Seq<u8>) -> bool {
    forall|i: int| 0 <= i < bytes.len() ==> is_printable_byte(#[trigger] bytes[i])
}

/// Printable ASCII is valid UTF-8 (each byte encodes one character on its own).
pub proof fn lemma_printable_is_utf8(bytes: Seq<u8>)
    requires
        is_printable(bytes),
    ensures
        valid_utf8(bytes),
    decreases bytes.len(),
{
    if bytes.len() != 0 {
        let rest = bytes.subrange(1, bytes.len() as int);
        assert(pop_first_scalar(bytes) =~= rest);
        assert(is_printable(rest)) by {
            assert forall|i: int| 0 <= i < rest.len() implies is_printable_byte(#[trigger] rest[i]) by {
                assert(rest[i] == bytes[i + 1]);
            }
        }
        lemma_printable_is_utf8(rest);
    }
}

/// `Ok` only if every byte is printable 7-bit US-ASCII (0x20-0x7E).
pub fn validate(bytes: &[u8]) -> (r: Result<(), AsciiError>)
    ensures
        r is Ok <==> is_printable(bytes@),
{
    let mut i: usize = 0;
    while i < bytes.len()
        invariant
            i <= bytes@.len(),
            forall|j: int| 0 <= j < i ==> is_printable_byte(#[trigger] bytes@[j]),
        decreases bytes@.len() - i,
    {
        if bytes[i] < PRINTABLE_FIRST || bytes[i] > PRINTABLE_LAST {
            return Err(AsciiError);
        }
        i = i + 1;
    }
    Ok(())
}

/// `core::str::from_utf8`: the string whose UTF-8 bytes are `bytes`, when they are
/// valid UTF-8 (the documented contract; the error value is dropped).
#[verifier::external_body]
fn str_from_utf8<'a>(bytes: &'a [u8]) -> (r: Option<&'a str>)
    ensures
        r is Some <==> valid_utf8(bytes@),
        r matches Some(s) ==> s.spec_bytes() == bytes@,
{
    core::str::from_utf8(bytes).ok()
}

/// A borrowed string validated to contain only printable 7-bit US-ASCII.
#[derive(Debug, Clone, Copy, PartialEq, Eq, Hash)]
pub struct AsciiStr<'a>(&'a str);

impl<'a> View for AsciiStr<'a> {
    type V = Seq<u8>;

    /// The string's bytes.
    closed spec fn view(&self) -> Seq<u8> {
        self.0.spec_bytes()
    }
}

impl<'a> AsciiStr<'a> {
    #[verifier::type_invariant]
    spec fn inv(self) -> bool {
        is_printable(self.0.spec_bytes())
    }

    /// Validates `s`: `Ok` exactly when every byte is printable ASCII.
    pub fn from_str(s: &'a str) -> (r: Result<Self, AsciiError>)
        ensures
            r is Ok <==> is_printable(s.spec_bytes()),
            r matches Ok(a) ==> a@ == s.spec_bytes(),
    {
        validate(s.as_bytes())?;
        Ok(AsciiStr(s))
    }

    /// Validates `bytes`: `Ok` exactly when every byte is printable ASCII (which is
    /// also valid UTF-8, so no valid input is lost).
    pub fn from_bytes(bytes: &'a [u8]) -> (r: Result<Self, AsciiError>)
        ensures
            r is Ok <==> is_printable(bytes@),
            r matches Ok(a) ==> a@ == bytes@,
    {
        validate(bytes)?;
        proof {
            lemma_printable_is_utf8(bytes@);
        }
        match str_from_utf8(bytes) {
            Some(s) => Ok(AsciiStr(s)),
            None => Err(AsciiError),
        }
    }

    /// The validated string slice.
    pub fn as_str(&self) -> (r: &'a str)
        ensures
            r.spec_bytes() == self@,
    {
        self.0
    }

    /// The validated bytes.
    pub fn as_bytes(&self) -> (r: &'a [u8])
        ensures
            r@ == self@,
            is_printable(self@),
    {
        proof {
            use_type_invariant(self);
        }
        self.0.as_bytes()
    }
}

impl<'a> vstd::std_specs::convert::TryFromSpecImpl<&'a str> for AsciiStr<'a> {
    open spec fn obeys_try_from_spec() -> bool {
        false
    }

    open spec fn try_from_spec(s: &'a str) -> Result<Self, AsciiError> {
        Err(AsciiError)
    }
}

impl<'a> TryFrom<&'a str> for AsciiStr<'a> {
    type Error = AsciiError;

    fn try_from(s: &'a str) -> (r: Result<Self, AsciiError>)
        ensures
            r is Ok <==> is_printable(s.spec_bytes()),
            r matches Ok(a) ==> a@ == s.spec_bytes(),
    {
        validate(s.as_bytes())?;
        Ok(AsciiStr(s))
    }
}

impl<'a> vstd::std_specs::convert::TryFromSpecImpl<&'a [u8]> for AsciiStr<'a> {
    open spec fn obeys_try_from_spec() -> bool {
        false
    }

    open spec fn try_from_spec(bytes: &'a [u8]) -> Result<Self, AsciiError> {
        Err(AsciiError)
    }
}

impl<'a> TryFrom<&'a [u8]> for AsciiStr<'a> {
    type Error = AsciiError;

    fn try_from(bytes: &'a [u8]) -> (r: Result<Self, AsciiError>)
        ensures
            r is Ok <==> is_printable(bytes@),
            r matches Ok(a) ==> a@ == bytes@,
    {
        AsciiStr::from_bytes(bytes)
    }
}

/// An owned string validated to contain only printable 7-bit US-ASCII.
#[derive(Debug, PartialEq, Eq, Hash)]
pub struct AsciiString(String);

impl Clone for AsciiString {
    fn clone(&self) -> (r: Self)
        ensures
            r@ == self@,
    {
        proof {
            use_type_invariant(self);
        }
        AsciiString(self.0.clone())
    }
}

impl View for AsciiString {
    type V = Seq<u8>;

    /// The string's bytes.
    closed spec fn view(&self) -> Seq<u8> {
        encode_utf8(self.0@)
    }
}

impl AsciiString {
    #[verifier::type_invariant]
    spec fn inv(self) -> bool {
        is_printable(encode_utf8(self.0@))
    }

    /// Validates `s` and copies it: `Ok` exactly when every byte is printable ASCII.
    pub fn from_str(s: &str) -> (r: Result<Self, AsciiError>)
        ensures
            r is Ok <==> is_printable(s.spec_bytes()),
            r matches Ok(a) ==> a@ == s.spec_bytes(),
    {
        validate(s.as_bytes())?;
        Ok(AsciiString(s.to_owned()))
    }

    /// The validated string slice.
    pub fn as_str(&self) -> (r: &str)
        ensures
            r.spec_bytes() == self@,
    {
        self.0.as_str()
    }

    /// Borrows this as an [`AsciiStr`] (no re-validation: it was validated on construction).
    pub fn as_ascii_str(&self) -> (r: AsciiStr<'_>)
        ensures
            r@ == self@,
    {
        proof {
            use_type_invariant(self);
        }
        AsciiStr(self.0.as_str())
    }
}

impl AsciiString {
    /// Validates `s` and takes it over: `Ok` exactly when every byte is printable ASCII.
    pub fn from_string(s: String) -> (r: Result<Self, AsciiError>)
        ensures
            r is Ok <==> is_printable(encode_utf8(s@)),
            r matches Ok(a) ==> a@ == encode_utf8(s@),
    {
        validate(s.as_str().as_bytes())?;
        Ok(AsciiString(s))
    }

    /// The string as a CBOR text string.
    pub fn encode(&self) -> (r: Vec<u8>)
        ensures
            r@ == ser_text(self@),
            parse_ascii(r@) == Some((self@, r@.len() as int)),
    {
        self.as_ascii_str().encode()
    }

    /// Reads a printable-ASCII text string from the front of `s` into an owned string.
    pub fn decode(s: &[u8]) -> (r: Result<AsciiString, DecodeError>)
        ensures
            match parse_ascii(s@) {
                None => r is Err,
                Some((c, _)) => r matches Ok(a) && a@ == c,
            },
    {
        let a = AsciiStr::decode(s)?;
        proof {
            use_type_invariant(&a);
        }
        match AsciiString::from_str(a.as_str()) {
            Ok(owned) => Ok(owned),
            Err(_) => Err(DecodeError),
        }
    }
}

impl<'a> vstd::std_specs::convert::TryFromSpecImpl<&'a str> for AsciiString {
    open spec fn obeys_try_from_spec() -> bool {
        false
    }

    open spec fn try_from_spec(s: &'a str) -> Result<Self, AsciiError> {
        Err(AsciiError)
    }
}

impl<'a> TryFrom<&'a str> for AsciiString {
    type Error = AsciiError;

    fn try_from(s: &'a str) -> (r: Result<Self, AsciiError>)
        ensures
            r is Ok <==> is_printable(s.spec_bytes()),
            r matches Ok(a) ==> a@ == s.spec_bytes(),
    {
        AsciiString::from_str(s)
    }
}

// ---- CBOR: a text string whose content is printable ASCII ----

/// Reads a definite-length text string whose content is printable ASCII.
pub open spec fn parse_ascii(s: Seq<u8>) -> Option<(Seq<u8>, int)> {
    match parse_string(s, MAJOR_TEXT) {
        Some((c, n)) => if is_printable(c) {
            Some((c, n))
        } else {
            None
        },
        None => None,
    }
}

/// A definite-length text string.
pub open spec fn ser_text(content: Seq<u8>) -> Seq<u8> {
    ser_string(MAJOR_TEXT, content)
}

/// Reading a printable-ASCII text string back from its encoding gives the same value and consumes
/// exactly the encoding, whatever bytes follow.
pub proof fn lemma_ascii_roundtrip(content: Seq<u8>, rest: Seq<u8>)
    requires
        is_printable(content),
        content.len() <= u64::MAX,
    ensures
        parse_ascii(ser_text(content) + rest) == Some((content, ser_text(content).len() as int)),
{
    lemma_string_roundtrip(MAJOR_TEXT, content, rest);
}

/// Appends `a` as a CBOR text string.
pub fn push_ascii(out: &mut Vec<u8>, a: &AsciiStr)
    ensures
        final(out)@ == old(out)@ + ser_text(a@),
        is_printable(a@),
        a@.len() <= u64::MAX,
{
    push_string(out, MAJOR_TEXT, a.as_bytes());
}

/// Reads a printable-ASCII text string at `pos`, borrowing it from `s`.
pub fn read_ascii<'b>(s: &'b [u8], pos: usize) -> (r: Result<(AsciiStr<'b>, usize), DecodeError>)
    requires
        pos <= s@.len(),
    ensures
        match parse_ascii(s@.skip(pos as int)) {
            None => r is Err,
            Some((c, n)) => r matches Ok((a, p)) && a@ == c && p == pos + n && pos <= p <= s@.len(),
        },
{
    let (content, p) = read_string(s, pos, MAJOR_TEXT)?;
    match AsciiStr::from_bytes(content) {
        Ok(a) => Ok((a, p)),
        Err(_) => Err(DecodeError),
    }
}

impl<'a> AsciiStr<'a> {
    /// The string as a CBOR text string.
    pub fn encode(&self) -> (r: Vec<u8>)
        ensures
            r@ == ser_text(self@),
            parse_ascii(r@) == Some((self@, r@.len() as int)),
    {
        let mut out = Vec::new();
        push_ascii(&mut out, self);
        proof {
            assert(out@ =~= ser_text(self@));
            lemma_ascii_roundtrip(self@, Seq::empty());
            assert(ser_text(self@) + Seq::<u8>::empty() =~= ser_text(self@));
        }
        out
    }

    /// Reads a printable-ASCII text string from the front of `s`, borrowing it.
    pub fn decode(s: &'a [u8]) -> (r: Result<AsciiStr<'a>, DecodeError>)
        ensures
            match parse_ascii(s@) {
                None => r is Err,
                Some((c, _)) => r matches Ok(a) && a@ == c,
            },
    {
        assert(s@.skip(0) =~= s@);
        match read_ascii(s, 0) {
            Ok((a, _)) => Ok(a),
            Err(e) => Err(e),
        }
    }
}

} // verus!
