//! COSE structures (RFC 9052): the `COSE_Sign1` signed-message envelope, the
//! `COSE_Encrypt` container with its single recipient, and the canonical
//! `Sig_structure` (the exact to-be-signed bytes).
//!
//! This module builds and parses the bytes and ferries the algorithm codepoints; the
//! actual signing, verifying, sealing and opening live in the crypto layer.
use vstd::prelude::*;
use crate::wire::alg::{push_alg, read_alg, AlgId};
use crate::wire::ascii::{
    is_printable, lemma_ascii_roundtrip, parse_ascii, push_ascii, read_ascii, ser_text, AsciiStr,
};
use crate::wire::cbor::{
    lemma_container_roundtrip, lemma_i64_roundtrip, lemma_skip_skip, lemma_string_roundtrip,
    lemma_uint_roundtrip, parse_bytes, parse_container, parse_exact, parse_i64, parse_uint,
    push_head, push_raw, push_string, push_uint, read_container, read_exact, read_string, read_u8,
    ser_bytes, ser_head, ser_i64, ser_string, ser_uint, DecodeError, MAJOR_ARRAY, MAJOR_BYTES,
    MAJOR_MAP, MAJOR_TEXT, NULL,
};

verus! {

/// COSE header labels (RFC 9052, Table 2).
pub const LABEL_ALG: u8 = 1;
pub const LABEL_KID: u8 = 4;
pub const LABEL_IV: u8 = 5;

// ---- the protected header ----

/// The COSE protected header: the metadata the signature covers.
///
/// It carries the algorithm identifier. On the wire it is a CBOR byte string
/// wrapping the canonical CBOR of the header map `{1: alg}`; that wrapping is what
/// binds the algorithm into the signed bytes.
#[derive(Debug, Clone, Copy, PartialEq, Eq, Structural)]
pub struct ProtectedHeader {
    alg: AlgId,
}

impl View for ProtectedHeader {
    type V = i64;

    closed spec fn view(&self) -> i64 {
        self.alg@
    }
}

impl ProtectedHeader {
    /// Creates a protected header carrying `alg`.
    pub fn new(alg: AlgId) -> (r: Self)
        ensures
            r@ == alg@,
    {
        ProtectedHeader { alg }
    }

    /// The algorithm identifier.
    pub fn alg(&self) -> (r: AlgId)
        ensures
            r@ == self@,
    {
        self.alg
    }

    /// The serialized header map `{1: alg}` (the content of the byte string).
    pub fn encode_map(&self) -> (r: Vec<u8>)
        ensures
            r@ == ser_alg_map(self@),
    {
        let mut out = Vec::new();
        push_alg_map(&mut out, self.alg);
        out
    }
}

/// The header map `{1: alg}`.
pub open spec fn ser_alg_map(alg: i64) -> Seq<u8> {
    ser_head(MAJOR_MAP, 1) + ser_uint(LABEL_ALG as u64) + ser_i64(alg)
}

/// The protected header on the wire: a byte string wrapping `{1: alg}`.
pub open spec fn ser_protected(alg: i64) -> Seq<u8> {
    ser_bytes(ser_alg_map(alg))
}

/// Reads `{1: alg}` filling exactly `c`.
#[verifier::opaque]
pub open spec fn parse_alg_map(c: Seq<u8>) -> Option<i64> {
    match parse_exact(c, MAJOR_MAP, 1) {
        Some(k0) => match parse_uint(c.skip(k0), 0xff) {
            Some((l, k1)) => if l == LABEL_ALG {
                match parse_i64(c.skip(k0 + k1)) {
                    Some((alg, k2)) => if k0 + k1 + k2 == c.len() {
                        Some(alg)
                    } else {
                        None
                    },
                    None => None,
                }
            } else {
                None
            },
            None => None,
        },
        None => None,
    }
}

/// Reads the protected header: a byte string whose whole content is `{1: alg}`.
#[verifier::opaque]
pub open spec fn parse_protected(s: Seq<u8>) -> Option<(i64, int)> {
    match parse_bytes(s) {
        Some((c, n)) => match parse_alg_map(c) {
            Some(alg) => Some((alg, n)),
            None => None,
        },
        None => None,
    }
}

proof fn lemma_alg_map_roundtrip(alg: i64)
    ensures
        parse_alg_map(ser_alg_map(alg)) == Some(alg),
        ser_alg_map(alg).len() <= 27,
{
    reveal(parse_alg_map);
    let h = ser_head(MAJOR_MAP, 1);
    let l = ser_uint(LABEL_ALG as u64);
    let a = ser_i64(alg);
    let c = ser_alg_map(alg);
    assert(c =~= h + (l + a));
    lemma_container_roundtrip(MAJOR_MAP, 1, l + a);
    assert(c.skip(h.len() as int) =~= l + a);
    lemma_uint_roundtrip(LABEL_ALG as u64, 0xff, a);
    assert(c.skip((h.len() + l.len()) as int) =~= a + Seq::<u8>::empty());
    lemma_i64_roundtrip(alg, Seq::empty());
    crate::wire::cbor::lemma_head_len(MAJOR_MAP, 1);
    crate::wire::cbor::lemma_head_len(0, LABEL_ALG as u64);
    if alg >= 0 {
        crate::wire::cbor::lemma_head_len(0, alg as u64);
    } else {
        crate::wire::cbor::lemma_head_len(1, (-1 - alg) as u64);
    }
}

/// Reading the protected header back from its encoding gives the same value and consumes
/// exactly the encoding, whatever bytes follow.
pub proof fn lemma_protected_roundtrip(alg: i64, rest: Seq<u8>)
    ensures
        parse_protected(ser_protected(alg) + rest) == Some((alg, ser_protected(alg).len() as int)),
{
    reveal(parse_protected);
    lemma_alg_map_roundtrip(alg);
    lemma_string_roundtrip(MAJOR_BYTES, ser_alg_map(alg), rest);
}

fn push_alg_map(out: &mut Vec<u8>, alg: AlgId)
    ensures
        final(out)@ == old(out)@ + ser_alg_map(alg@),
{
    let ghost start = out@;
    push_head(out, MAJOR_MAP, 1);
    push_uint(out, LABEL_ALG as u64);
    push_alg(out, alg);
    assert(out@ =~= start + ser_alg_map(alg@));
}

/// Appends the protected header `bstr({1: alg})`.
pub fn push_protected(out: &mut Vec<u8>, alg: AlgId)
    ensures
        final(out)@ == old(out)@ + ser_protected(alg@),
{
    let map = ProtectedHeader::new(alg).encode_map();
    push_string(out, MAJOR_BYTES, map.as_slice());
}

/// Reads the protected header at `pos`.
pub fn read_protected(s: &[u8], pos: usize) -> (r: Result<(AlgId, usize), DecodeError>)
    requires
        pos <= s@.len(),
    ensures
        match parse_protected(s@.skip(pos as int)) {
            None => r is Err,
            Some((a, n)) => r matches Ok((x, p)) && x@ == a && p == pos + n && pos <= p <= s@.len(),
        },
{
    reveal(parse_protected);
    reveal(parse_alg_map);
    let (c, p) = read_string(s, pos, MAJOR_BYTES)?;
    assert(c@.skip(0) =~= c@);
    let k0 = read_exact(c, 0, MAJOR_MAP, 1)?;
    let (l, k1) = read_u8(c, k0)?;
    proof {
        lemma_skip_skip(c@, k0 as int, k1 - k0);
    }
    if l != LABEL_ALG {
        return Err(DecodeError);
    }
    let (alg, k2) = read_alg(c, k1)?;
    proof {
        lemma_skip_skip(c@, k0 as int, k1 - k0);
    }
    if k2 != c.len() {
        return Err(DecodeError);
    }
    Ok((alg, p))
}

// ---- the unprotected headers ----

/// The bytes of an optional ASCII string.
pub open spec fn opt_ascii_view(a: Option<AsciiStr>) -> Option<Seq<u8>> {
    match a {
        Some(x) => Some(x@),
        None => None,
    }
}

/// The unprotected header carrying an optional key identifier: `{}` or `{4: kid}`.
pub open spec fn ser_kid_header(kid: Option<Seq<u8>>) -> Seq<u8> {
    match kid {
        Some(k) => ser_head(MAJOR_MAP, 1) + ser_uint(LABEL_KID as u64) + ser_text(k),
        None => ser_head(MAJOR_MAP, 0),
    }
}

/// Reads the unprotected header `{}` or `{4: kid}` with a printable-ASCII key id.
#[verifier::opaque]
pub open spec fn parse_kid_header(s: Seq<u8>) -> Option<(Option<Seq<u8>>, int)> {
    match parse_container(s, MAJOR_MAP) {
        Some((Some(len), n0)) => if len == 0 {
            Some((None, n0))
        } else if len == 1 {
            match parse_uint(s.skip(n0), 0xff) {
                Some((l, n1)) => if l == LABEL_KID {
                    match parse_ascii(s.skip(n0 + n1)) {
                        Some((k, n2)) => Some((Some(k), n0 + n1 + n2)),
                        None => None,
                    }
                } else {
                    None
                },
                None => None,
            }
        } else {
            None
        },
        _ => None,
    }
}

/// A key id that can be encoded: printable ASCII of a length CBOR can carry.
pub open spec fn kid_wf(kid: Option<Seq<u8>>) -> bool {
    kid matches Some(k) ==> is_printable(k) && k.len() <= u64::MAX
}

/// Reading the key-id header back from its encoding gives the same value and consumes
/// exactly the encoding, whatever bytes follow.
pub proof fn lemma_kid_header_roundtrip(kid: Option<Seq<u8>>, rest: Seq<u8>)
    requires
        kid_wf(kid),
    ensures
        parse_kid_header(ser_kid_header(kid) + rest) == Some(
            (kid, ser_kid_header(kid).len() as int),
        ),
{
    reveal(parse_kid_header);
    match kid {
        None => {
            lemma_container_roundtrip(MAJOR_MAP, 0, rest);
        },
        Some(k) => {
            let h = ser_head(MAJOR_MAP, 1);
            let l = ser_uint(LABEL_KID as u64);
            let t = ser_text(k);
            let s = ser_kid_header(kid) + rest;
            assert(s =~= h + (l + (t + rest)));
            lemma_container_roundtrip(MAJOR_MAP, 1, l + (t + rest));
            assert(s.skip(h.len() as int) =~= l + (t + rest));
            lemma_uint_roundtrip(LABEL_KID as u64, 0xff, t + rest);
            assert(s.skip((h.len() + l.len()) as int) =~= t + rest);
            lemma_ascii_roundtrip(k, rest);
        },
    }
}

/// Appends the unprotected header carrying the optional key id.
pub fn push_kid_header(out: &mut Vec<u8>, kid: &Option<AsciiStr>)
    ensures
        final(out)@ == old(out)@ + ser_kid_header(opt_ascii_view(*kid)),
        kid_wf(opt_ascii_view(*kid)),
{
    let ghost start = out@;
    match kid {
        Some(k) => {
            push_head(out, MAJOR_MAP, 1);
            push_uint(out, LABEL_KID as u64);
            push_ascii(out, k);
        },
        None => {
            push_head(out, MAJOR_MAP, 0);
        },
    }
    assert(out@ =~= start + ser_kid_header(opt_ascii_view(*kid)));
}

/// Reads the unprotected header `{}` or `{4: kid}` at `pos`, borrowing the key id.
pub fn read_kid_header<'b>(s: &'b [u8], pos: usize) -> (r: Result<(Option<AsciiStr<'b>>, usize), DecodeError>)
    requires
        pos <= s@.len(),
    ensures
        match parse_kid_header(s@.skip(pos as int)) {
            None => r is Err,
            Some((k, n)) => r matches Ok((x, p)) && opt_ascii_view(x) == k && p == pos + n && pos
                <= p <= s@.len(),
        },
{
    reveal(parse_kid_header);
    let (len, p0) = read_container(s, pos, MAJOR_MAP)?;
    proof {
        lemma_skip_skip(s@, pos as int, p0 - pos);
    }
    match len {
        Some(0) => Ok((None, p0)),
        Some(1) => {
            let (l, p1) = read_u8(s, p0)?;
            proof {
                lemma_skip_skip(s@, pos as int, p1 - pos);
            }
            if l != LABEL_KID {
                return Err(DecodeError);
            }
            let (k, p2) = read_ascii(s, p1)?;
            Ok((Some(k), p2))
        },
        _ => Err(DecodeError),
    }
}

/// The unprotected header of the content layer: `{5: iv}`.
pub open spec fn ser_iv_header(iv: Seq<u8>) -> Seq<u8> {
    ser_head(MAJOR_MAP, 1) + ser_uint(LABEL_IV as u64) + ser_bytes(iv)
}

/// Reads the unprotected header `{5: iv}`.
#[verifier::opaque]
pub open spec fn parse_iv_header(s: Seq<u8>) -> Option<(Seq<u8>, int)> {
    match parse_exact(s, MAJOR_MAP, 1) {
        Some(n0) => match parse_uint(s.skip(n0), 0xff) {
            Some((l, n1)) => if l == LABEL_IV {
                match parse_bytes(s.skip(n0 + n1)) {
                    Some((iv, n2)) => Some((iv, n0 + n1 + n2)),
                    None => None,
                }
            } else {
                None
            },
            None => None,
        },
        None => None,
    }
}

/// Reading the IV header back from its encoding gives the same value and consumes
/// exactly the encoding, whatever bytes follow.
pub proof fn lemma_iv_header_roundtrip(iv: Seq<u8>, rest: Seq<u8>)
    requires
        iv.len() <= u64::MAX,
    ensures
        parse_iv_header(ser_iv_header(iv) + rest) == Some((iv, ser_iv_header(iv).len() as int)),
{
    reveal(parse_iv_header);
    let h = ser_head(MAJOR_MAP, 1);
    let l = ser_uint(LABEL_IV as u64);
    let t = ser_bytes(iv);
    let s = ser_iv_header(iv) + rest;
    assert(s =~= h + (l + (t + rest)));
    lemma_container_roundtrip(MAJOR_MAP, 1, l + (t + rest));
    assert(s.skip(h.len() as int) =~= l + (t + rest));
    lemma_uint_roundtrip(LABEL_IV as u64, 0xff, t + rest);
    assert(s.skip((h.len() + l.len()) as int) =~= t + rest);
    lemma_string_roundtrip(MAJOR_BYTES, iv, rest);
}

/// Appends the unprotected header `{5: iv}`.
pub fn push_iv_header(out: &mut Vec<u8>, iv: &[u8])
    ensures
        final(out)@ == old(out)@ + ser_iv_header(iv@),
        iv@.len() <= u64::MAX,
{
    let ghost start = out@;
    push_head(out, MAJOR_MAP, 1);
    push_uint(out, LABEL_IV as u64);
    push_string(out, MAJOR_BYTES, iv);
    assert(out@ =~= start + ser_iv_header(iv@));
}

/// Reads the unprotected header `{5: iv}` at `pos`, borrowing the IV.
pub fn read_iv_header<'b>(s: &'b [u8], pos: usize) -> (r: Result<(&'b [u8], usize), DecodeError>)
    requires
        pos <= s@.len(),
    ensures
        match parse_iv_header(s@.skip(pos as int)) {
            None => r is Err,
            Some((iv, n)) => r matches Ok((x, p)) && x@ == iv && p == pos + n && pos <= p
                <= s@.len(),
        },
{
    reveal(parse_iv_header);
    let p0 = read_exact(s, pos, MAJOR_MAP, 1)?;
    proof {
        lemma_skip_skip(s@, pos as int, p0 - pos);
    }
    let (l, p1) = read_u8(s, p0)?;
    proof {
        lemma_skip_skip(s@, pos as int, p1 - pos);
    }
    if l != LABEL_IV {
        return Err(DecodeError);
    }
    read_string(s, p1, MAJOR_BYTES)
}

// ---- the payload ----

/// The payload of a `COSE_Sign1`: carried inside the structure, or detached
/// (shipped separately and referenced by the signature only).
#[derive(Debug, Clone, Copy, PartialEq, Eq)]
pub enum Payload<'b> {
    /// The payload travels separately; the structure carries `null`.
    Detached,
    /// The payload bytes, carried as a byte string.
    Attached(&'b [u8]),
}

/// The payload bytes, or `None` when detached.
pub open spec fn payload_view(p: Payload) -> Option<Seq<u8>> {
    match p {
        Payload::Detached => None,
        Payload::Attached(b) => Some(b@),
    }
}

/// The payload field: the bytes as a byte string, or `null` when detached.
pub open spec fn ser_payload(p: Option<Seq<u8>>) -> Seq<u8> {
    match p {
        None => seq![NULL],
        Some(b) => ser_bytes(b),
    }
}

/// Reads the payload field: `null` or a byte string.
#[verifier::opaque]
pub open spec fn parse_payload(s: Seq<u8>) -> Option<(Option<Seq<u8>>, int)> {
    if s.len() > 0 && s[0] == NULL {
        Some((None, 1))
    } else {
        match parse_bytes(s) {
            Some((b, n)) => Some((Some(b), n)),
            None => None,
        }
    }
}

/// Reading the payload field back from its encoding gives the same value and consumes
/// exactly the encoding, whatever bytes follow.
pub proof fn lemma_payload_roundtrip(p: Option<Seq<u8>>, rest: Seq<u8>)
    requires
        p matches Some(b) ==> b.len() <= u64::MAX,
    ensures
        parse_payload(ser_payload(p) + rest) == Some((p, ser_payload(p).len() as int)),
{
    reveal(parse_payload);
    match p {
        None => {
            assert((ser_payload(p) + rest)[0] == NULL);
        },
        Some(b) => {
            lemma_string_roundtrip(MAJOR_BYTES, b, rest);
            let h = ser_head(MAJOR_BYTES, b.len() as u64);
            crate::wire::cbor::lemma_head_roundtrip(MAJOR_BYTES, b.len() as u64, b + rest);
            assert((ser_payload(p) + rest)[0] == h[0]);
        },
    }
}

/// Appends the payload field.
pub fn push_payload(out: &mut Vec<u8>, p: &Payload)
    ensures
        final(out)@ == old(out)@ + ser_payload(payload_view(*p)),
        payload_view(*p) matches Some(b) ==> b.len() <= u64::MAX,
{
    let ghost start = out@;
    match p {
        Payload::Detached => {
            out.push(NULL);
            assert(out@ =~= start + ser_payload(payload_view(*p)));
        },
        Payload::Attached(b) => {
            push_string(out, MAJOR_BYTES, b);
        },
    }
}

/// Reads the payload field at `pos`, borrowing attached bytes.
pub fn read_payload<'b>(s: &'b [u8], pos: usize) -> (r: Result<(Payload<'b>, usize), DecodeError>)
    requires
        pos <= s@.len(),
    ensures
        match parse_payload(s@.skip(pos as int)) {
            None => r is Err,
            Some((v, n)) => r matches Ok((x, p)) && payload_view(x) == v && p == pos + n && pos
                <= p <= s@.len(),
        },
{
    reveal(parse_payload);
    if pos < s.len() && s[pos] == NULL {
        return Ok((Payload::Detached, pos + 1));
    }
    let (b, p) = read_string(s, pos, MAJOR_BYTES)?;
    Ok((Payload::Attached(b), p))
}


// ---- COSE_Sign1 ----

/// The model of a [`CoseSign1`].
pub struct Sign1View {
    pub alg: i64,
    pub kid: Option<Seq<u8>>,
    pub payload: Option<Seq<u8>>,
    pub signature: Seq<u8>,
}

/// A `COSE_Sign1` signed message: `[protected {1: alg}, unprotected {4: kid}?,
/// payload / null, signature]`, borrowed from its input.
#[derive(Debug, Clone, Copy, PartialEq, Eq)]
pub struct CoseSign1<'b> {
    alg: AlgId,
    kid: Option<AsciiStr<'b>>,
    payload: Payload<'b>,
    signature: &'b [u8],
}

impl<'b> View for CoseSign1<'b> {
    type V = Sign1View;

    closed spec fn view(&self) -> Sign1View {
        Sign1View {
            alg: self.alg@,
            kid: opt_ascii_view(self.kid),
            payload: payload_view(self.payload),
            signature: self.signature@,
        }
    }
}

/// A `COSE_Sign1` that can be encoded: every length fits CBOR and the key id is
/// printable ASCII.
pub open spec fn sign1_wf(v: Sign1View) -> bool {
    &&& kid_wf(v.kid)
    &&& v.payload matches Some(b) ==> b.len() <= u64::MAX
    &&& v.signature.len() <= u64::MAX
}

/// The encoding of a `COSE_Sign1`.
pub open spec fn ser_sign1(v: Sign1View) -> Seq<u8> {
    ser_head(MAJOR_ARRAY, 4) + (ser_protected(v.alg) + (ser_kid_header(v.kid) + (ser_payload(
        v.payload,
    ) + ser_bytes(v.signature))))
}

/// Reads a `COSE_Sign1`: a four-element array of the protected header, the
/// unprotected header, the payload and the signature.
#[verifier::opaque]
pub open spec fn parse_sign1(s: Seq<u8>) -> Option<(Sign1View, int)> {
    match parse_exact(s, MAJOR_ARRAY, 4) {
        Some(n0) => match parse_protected(s.skip(n0)) {
            Some((alg, n1)) => match parse_kid_header(s.skip(n0 + n1)) {
                Some((kid, n2)) => match parse_payload(s.skip(n0 + n1 + n2)) {
                    Some((payload, n3)) => match parse_bytes(s.skip(n0 + n1 + n2 + n3)) {
                        Some((signature, n4)) => Some(
                            (Sign1View { alg, kid, payload, signature }, n0 + n1 + n2 + n3 + n4),
                        ),
                        None => None,
                    },
                    None => None,
                },
                None => None,
            },
            None => None,
        },
        None => None,
    }
}

/// Encoding a well-formed `COSE_Sign1` and reading it back gives the same value.
pub proof fn lemma_sign1_roundtrip(v: Sign1View, rest: Seq<u8>)
    requires
        sign1_wf(v),
    ensures
        parse_sign1(ser_sign1(v) + rest) == Some((v, ser_sign1(v).len() as int)),
{
    reveal(parse_sign1);
    let h = ser_head(MAJOR_ARRAY, 4);
    let a = ser_protected(v.alg);
    let b = ser_kid_header(v.kid);
    let c = ser_payload(v.payload);
    let d = ser_bytes(v.signature);
    let s = ser_sign1(v) + rest;
    assert(s =~= h + (a + (b + (c + (d + rest)))));
    lemma_container_roundtrip(MAJOR_ARRAY, 4, a + (b + (c + (d + rest))));
    assert(s.skip(h.len() as int) =~= a + (b + (c + (d + rest))));
    lemma_protected_roundtrip(v.alg, b + (c + (d + rest)));
    assert(s.skip((h.len() + a.len()) as int) =~= b + (c + (d + rest)));
    lemma_kid_header_roundtrip(v.kid, c + (d + rest));
    assert(s.skip((h.len() + a.len() + b.len()) as int) =~= c + (d + rest));
    lemma_payload_roundtrip(v.payload, d + rest);
    assert(s.skip((h.len() + a.len() + b.len() + c.len()) as int) =~= d + rest);
    lemma_string_roundtrip(MAJOR_BYTES, v.signature, rest);
}

impl<'b> CoseSign1<'b> {
    /// Creates a `COSE_Sign1` from its algorithm, optional key id, payload and signature.
    pub fn new(alg: AlgId, kid: Option<AsciiStr<'b>>, payload: Payload<'b>, signature: &'b [u8]) -> (r: Self)
        ensures
            r@ == (Sign1View {
                alg: alg@,
                kid: opt_ascii_view(kid),
                payload: payload_view(payload),
                signature: signature@,
            }),
    {
        CoseSign1 { alg, kid, payload, signature }
    }

    /// The signature algorithm (from the protected header).
    pub fn alg(&self) -> (r: AlgId)
        ensures
            r@ == self@.alg,
    {
        self.alg
    }

    /// The optional key identifier (from the unprotected header).
    pub fn kid(&self) -> (r: Option<AsciiStr<'b>>)
        ensures
            opt_ascii_view(r) == self@.kid,
    {
        self.kid
    }

    /// The payload, attached or detached.
    pub fn payload(&self) -> (r: Payload<'b>)
        ensures
            payload_view(r) == self@.payload,
    {
        self.payload
    }

    /// The signature bytes.
    pub fn signature(&self) -> (r: &'b [u8])
        ensures
            r@ == self@.signature,
    {
        self.signature
    }

    /// Appends the encoding of the structure.
    pub fn encode_into(&self, out: &mut Vec<u8>)
        ensures
            final(out)@ == old(out)@ + ser_sign1(self@),
            sign1_wf(self@),
    {
        let ghost start = out@;
        push_head(out, MAJOR_ARRAY, 4);
        let ghost g0 = out@;
        push_protected(out, self.alg);
        let ghost g1 = out@;
        push_kid_header(out, &self.kid);
        let ghost g2 = out@;
        push_payload(out, &self.payload);
        let ghost g3 = out@;
        push_string(out, MAJOR_BYTES, self.signature);
        proof {
            let v = self@;
            assert(out@ =~= start + ser_sign1(v));
        }
    }

    /// The encoding of the structure; reading it back gives this structure.
    pub fn encode(&self) -> (r: Vec<u8>)
        ensures
            r@ == ser_sign1(self@),
            parse_sign1(r@) == Some((self@, r@.len() as int)),
    {
        let mut out = Vec::new();
        self.encode_into(&mut out);
        proof {
            assert(out@ =~= ser_sign1(self@));
            lemma_sign1_roundtrip(self@, Seq::empty());
            assert(ser_sign1(self@) + Seq::<u8>::empty() =~= ser_sign1(self@));
        }
        out
    }

    /// Reads a `COSE_Sign1` at `pos`, borrowing from `s`.
    pub fn decode_from(s: &'b [u8], pos: usize) -> (r: Result<(Self, usize), DecodeError>)
        requires
            pos <= s@.len(),
        ensures
            match parse_sign1(s@.skip(pos as int)) {
                None => r is Err,
                Some((v, n)) => r matches Ok((x, p)) && x@ == v && p == pos + n && pos <= p
                    <= s@.len(),
            },
    {
        reveal(parse_sign1);
        let p0 = read_exact(s, pos, MAJOR_ARRAY, 4)?;
        proof {
            lemma_skip_skip(s@, pos as int, p0 - pos);
        }
        let (alg, p1) = read_protected(s, p0)?;
        proof {
            lemma_skip_skip(s@, pos as int, p1 - pos);
        }
        let (kid, p2) = read_kid_header(s, p1)?;
        proof {
            lemma_skip_skip(s@, pos as int, p2 - pos);
        }
        let (payload, p3) = read_payload(s, p2)?;
        proof {
            lemma_skip_skip(s@, pos as int, p3 - pos);
        }
        let (signature, p4) = read_string(s, p3, MAJOR_BYTES)?;
        Ok((CoseSign1 { alg, kid, payload, signature }, p4))
    }

    /// Reads a `COSE_Sign1` from the front of `s` (trailing bytes are ignored).
    pub fn decode(s: &'b [u8]) -> (r: Result<Self, DecodeError>)
        ensures
            match parse_sign1(s@) {
                None => r is Err,
                Some((v, _)) => r matches Ok(x) && x@ == v,
            },
    {
        assert(s@.skip(0) =~= s@);
        let (x, _) = CoseSign1::decode_from(s, 0)?;
        Ok(x)
    }
}

// ---- COSE_recipient and COSE_Encrypt ----

/// The model of a [`Recipient`].
pub struct RecipientView {
    pub alg: i64,
    pub kid: Option<Seq<u8>>,
    pub encapsulation: Seq<u8>,
}

/// A `COSE_recipient`: the KEM algorithm, an optional key id, and the KEM
/// encapsulation that carries the content key to the holder of the private key.
#[derive(Debug, Clone, Copy, PartialEq, Eq)]
pub struct Recipient<'b> {
    kem_alg: AlgId,
    kid: Option<AsciiStr<'b>>,
    encapsulation: &'b [u8],
}

impl<'b> View for Recipient<'b> {
    type V = RecipientView;

    closed spec fn view(&self) -> RecipientView {
        RecipientView {
            alg: self.kem_alg@,
            kid: opt_ascii_view(self.kid),
            encapsulation: self.encapsulation@,
        }
    }
}

/// A recipient that can be encoded.
pub open spec fn recipient_wf(v: RecipientView) -> bool {
    kid_wf(v.kid) && v.encapsulation.len() <= u64::MAX
}

/// The encoding of a recipient.
pub open spec fn ser_recipient(v: RecipientView) -> Seq<u8> {
    ser_head(MAJOR_ARRAY, 3) + (ser_protected(v.alg) + (ser_kid_header(v.kid) + ser_bytes(
        v.encapsulation,
    )))
}

/// Reads a recipient: a three-element array of the protected header, the
/// unprotected header and the KEM encapsulation.
#[verifier::opaque]
pub open spec fn parse_recipient(s: Seq<u8>) -> Option<(RecipientView, int)> {
    match parse_exact(s, MAJOR_ARRAY, 3) {
        Some(n0) => match parse_protected(s.skip(n0)) {
            Some((alg, n1)) => match parse_kid_header(s.skip(n0 + n1)) {
                Some((kid, n2)) => match parse_bytes(s.skip(n0 + n1 + n2)) {
                    Some((encapsulation, n3)) => Some(
                        (RecipientView { alg, kid, encapsulation }, n0 + n1 + n2 + n3),
                    ),
                    None => None,
                },
                None => None,
            },
            None => None,
        },
        None => None,
    }
}

/// Reading a recipient back from its encoding gives the same value and consumes
/// exactly the encoding, whatever bytes follow.
pub proof fn lemma_recipient_roundtrip(v: RecipientView, rest: Seq<u8>)
    requires
        recipient_wf(v),
    ensures
        parse_recipient(ser_recipient(v) + rest) == Some((v, ser_recipient(v).len() as int)),
{
    reveal(parse_recipient);
    let h = ser_head(MAJOR_ARRAY, 3);
    let a = ser_protected(v.alg);
    let b = ser_kid_header(v.kid);
    let c = ser_bytes(v.encapsulation);
    let s = ser_recipient(v) + rest;
    assert(s =~= h + (a + (b + (c + rest))));
    lemma_container_roundtrip(MAJOR_ARRAY, 3, a + (b + (c + rest)));
    assert(s.skip(h.len() as int) =~= a + (b + (c + rest)));
    lemma_protected_roundtrip(v.alg, b + (c + rest));
    assert(s.skip((h.len() + a.len()) as int) =~= b + (c + rest));
    lemma_kid_header_roundtrip(v.kid, c + rest);
    assert(s.skip((h.len() + a.len() + b.len()) as int) =~= c + rest);
    lemma_string_roundtrip(MAJOR_BYTES, v.encapsulation, rest);
}

impl<'b> Recipient<'b> {
    /// Creates a recipient from the KEM algorithm, an optional key id and the encapsulation.
    pub fn new(kem_alg: AlgId, kid: Option<AsciiStr<'b>>, encapsulation: &'b [u8]) -> (r: Self)
        ensures
            r@ == (RecipientView {
                alg: kem_alg@,
                kid: opt_ascii_view(kid),
                encapsulation: encapsulation@,
            }),
    {
        Recipient { kem_alg, kid, encapsulation }
    }

    /// The KEM algorithm.
    pub fn kem_alg(&self) -> (r: AlgId)
        ensures
            r@ == self@.alg,
    {
        self.kem_alg
    }

    /// The optional key identifier.
    pub fn kid(&self) -> (r: Option<AsciiStr<'b>>)
        ensures
            opt_ascii_view(r) == self@.kid,
    {
        self.kid
    }

    /// The KEM encapsulation (ciphertext).
    pub fn encapsulation(&self) -> (r: &'b [u8])
        ensures
            r@ == self@.encapsulation,
    {
        self.encapsulation
    }

    /// Appends the encoding of the recipient.
    pub fn encode_into(&self, out: &mut Vec<u8>)
        ensures
            final(out)@ == old(out)@ + ser_recipient(self@),
            recipient_wf(self@),
    {
        let ghost start = out@;
        push_head(out, MAJOR_ARRAY, 3);
        push_protected(out, self.kem_alg);
        push_kid_header(out, &self.kid);
        push_string(out, MAJOR_BYTES, self.encapsulation);
        assert(out@ =~= start + ser_recipient(self@));
    }

    /// Reads a recipient at `pos`, borrowing from `s`.
    pub fn decode_from(s: &'b [u8], pos: usize) -> (r: Result<(Self, usize), DecodeError>)
        requires
            pos <= s@.len(),
        ensures
            match parse_recipient(s@.skip(pos as int)) {
                None => r is Err,
                Some((v, n)) => r matches Ok((x, p)) && x@ == v && p == pos + n && pos <= p
                    <= s@.len(),
            },
    {
        reveal(parse_recipient);
        let p0 = read_exact(s, pos, MAJOR_ARRAY, 3)?;
        proof {
            lemma_skip_skip(s@, pos as int, p0 - pos);
        }
        let (kem_alg, p1) = read_protected(s, p0)?;
        proof {
            lemma_skip_skip(s@, pos as int, p1 - pos);
        }
        let (kid, p2) = read_kid_header(s, p1)?;
        proof {
            lemma_skip_skip(s@, pos as int, p2 - pos);
        }
        let (encapsulation, p3) = read_string(s, p2, MAJOR_BYTES)?;
        Ok((Recipient { kem_alg, kid, encapsulation }, p3))
    }
}

/// The model of a [`CoseEncrypt`].
pub struct EncryptView {
    pub alg: i64,
    pub nonce: Seq<u8>,
    pub ciphertext: Seq<u8>,
    pub recipient: RecipientView,
}

/// A `COSE_Encrypt` container: `[protected {1: aead alg}, {5: nonce}, ciphertext,
/// [recipient]]`, with exactly one recipient, borrowed from its input.
#[derive(Debug, Clone, Copy, PartialEq, Eq)]
pub struct CoseEncrypt<'b> {
    alg: AlgId,
    nonce: &'b [u8],
    ciphertext: &'b [u8],
    recipient: Recipient<'b>,
}

impl<'b> View for CoseEncrypt<'b> {
    type V = EncryptView;

    closed spec fn view(&self) -> EncryptView {
        EncryptView {
            alg: self.alg@,
            nonce: self.nonce@,
            ciphertext: self.ciphertext@,
            recipient: self.recipient@,
        }
    }
}

/// A `COSE_Encrypt` that can be encoded.
pub open spec fn encrypt_wf(v: EncryptView) -> bool {
    v.nonce.len() <= u64::MAX && v.ciphertext.len() <= u64::MAX && recipient_wf(v.recipient)
}

/// The encoding of a `COSE_Encrypt`.
pub open spec fn ser_encrypt(v: EncryptView) -> Seq<u8> {
    ser_head(MAJOR_ARRAY, 4) + (ser_protected(v.alg) + (ser_iv_header(v.nonce) + (ser_bytes(
        v.ciphertext,
    ) + (ser_head(MAJOR_ARRAY, 1) + ser_recipient(v.recipient)))))
}

/// Reads a `COSE_Encrypt`: a four-element array of the protected header, the IV
/// header, the ciphertext and a one-element list of recipients.
#[verifier::opaque]
pub open spec fn parse_encrypt(s: Seq<u8>) -> Option<(EncryptView, int)> {
    match parse_exact(s, MAJOR_ARRAY, 4) {
        Some(n0) => match parse_protected(s.skip(n0)) {
            Some((alg, n1)) => match parse_iv_header(s.skip(n0 + n1)) {
                Some((nonce, n2)) => match parse_bytes(s.skip(n0 + n1 + n2)) {
                    Some((ciphertext, n3)) => match parse_exact(
                        s.skip(n0 + n1 + n2 + n3),
                        MAJOR_ARRAY,
                        1,
                    ) {
                        Some(n4) => match parse_recipient(s.skip(n0 + n1 + n2 + n3 + n4)) {
                            Some((recipient, n5)) => Some(
                                (
                                    EncryptView { alg, nonce, ciphertext, recipient },
                                    n0 + n1 + n2 + n3 + n4 + n5,
                                ),
                            ),
                            None => None,
                        },
                        None => None,
                    },
                    None => None,
                },
                None => None,
            },
            None => None,
        },
        None => None,
    }
}

/// Encoding a well-formed `COSE_Encrypt` and reading it back gives the same value.
pub proof fn lemma_encrypt_roundtrip(v: EncryptView, rest: Seq<u8>)
    requires
        encrypt_wf(v),
    ensures
        parse_encrypt(ser_encrypt(v) + rest) == Some((v, ser_encrypt(v).len() as int)),
{
    reveal(parse_encrypt);
    let h = ser_head(MAJOR_ARRAY, 4);
    let a = ser_protected(v.alg);
    let b = ser_iv_header(v.nonce);
    let c = ser_bytes(v.ciphertext);
    let d = ser_head(MAJOR_ARRAY, 1);
    let e = ser_recipient(v.recipient);
    let t5 = e + rest;
    let t4 = d + t5;
    let t3 = c + t4;
    let t2 = b + t3;
    let t1 = a + t2;
    let s = ser_encrypt(v) + rest;
    assert(s =~= h + t1);
    let n0 = h.len() as int;
    let n1 = a.len() as int;
    let n2 = b.len() as int;
    let n3 = c.len() as int;
    let n4 = d.len() as int;
    lemma_container_roundtrip(MAJOR_ARRAY, 4, t1);
    crate::wire::cbor::lemma_skip_prefix(h, t1);
    lemma_protected_roundtrip(v.alg, t2);
    crate::wire::cbor::lemma_skip_prefix(a, t2);
    lemma_skip_skip(s, n0, n1);
    lemma_iv_header_roundtrip(v.nonce, t3);
    crate::wire::cbor::lemma_skip_prefix(b, t3);
    lemma_skip_skip(s, n0 + n1, n2);
    lemma_string_roundtrip(MAJOR_BYTES, v.ciphertext, t4);
    crate::wire::cbor::lemma_skip_prefix(c, t4);
    lemma_skip_skip(s, n0 + n1 + n2, n3);
    lemma_container_roundtrip(MAJOR_ARRAY, 1, t5);
    crate::wire::cbor::lemma_skip_prefix(d, t5);
    lemma_skip_skip(s, n0 + n1 + n2 + n3, n4);
    lemma_recipient_roundtrip(v.recipient, rest);
}

impl<'b> CoseEncrypt<'b> {
    /// Creates a `COSE_Encrypt` from the AEAD algorithm, nonce, ciphertext and recipient.
    pub fn new(alg: AlgId, nonce: &'b [u8], ciphertext: &'b [u8], recipient: Recipient<'b>) -> (r: Self)
        ensures
            r@ == (EncryptView {
                alg: alg@,
                nonce: nonce@,
                ciphertext: ciphertext@,
                recipient: recipient@,
            }),
    {
        CoseEncrypt { alg, nonce, ciphertext, recipient }
    }

    /// The AEAD algorithm.
    pub fn alg(&self) -> (r: AlgId)
        ensures
            r@ == self@.alg,
    {
        self.alg
    }

    /// The AEAD nonce (the IV header).
    pub fn nonce(&self) -> (r: &'b [u8])
        ensures
            r@ == self@.nonce,
    {
        self.nonce
    }

    /// The encrypted content (ciphertext followed by the tag).
    pub fn ciphertext(&self) -> (r: &'b [u8])
        ensures
            r@ == self@.ciphertext,
    {
        self.ciphertext
    }

    /// The single recipient.
    pub fn recipient(&self) -> (r: Recipient<'b>)
        ensures
            r@ == self@.recipient,
    {
        self.recipient
    }

    /// Appends the encoding of the structure.
    pub fn encode_into(&self, out: &mut Vec<u8>)
        ensures
            final(out)@ == old(out)@ + ser_encrypt(self@),
            encrypt_wf(self@),
    {
        let ghost start = out@;
        push_head(out, MAJOR_ARRAY, 4);
        push_protected(out, self.alg);
        push_iv_header(out, self.nonce);
        push_string(out, MAJOR_BYTES, self.ciphertext);
        push_head(out, MAJOR_ARRAY, 1);
        self.recipient.encode_into(out);
        assert(out@ =~= start + ser_encrypt(self@));
    }

    /// The encoding of the container; reading it back gives this container.
    pub fn encode(&self) -> (r: Vec<u8>)
        ensures
            r@ == ser_encrypt(self@),
            parse_encrypt(r@) == Some((self@, r@.len() as int)),
    {
        let mut out = Vec::new();
        self.encode_into(&mut out);
        proof {
            assert(out@ =~= ser_encrypt(self@));
            lemma_encrypt_roundtrip(self@, Seq::empty());
            assert(ser_encrypt(self@) + Seq::<u8>::empty() =~= ser_encrypt(self@));
        }
        out
    }

    /// Reads a `COSE_Encrypt` at `pos`, borrowing from `s`.
    pub fn decode_from(s: &'b [u8], pos: usize) -> (r: Result<(Self, usize), DecodeError>)
        requires
            pos <= s@.len(),
        ensures
            match parse_encrypt(s@.skip(pos as int)) {
                None => r is Err,
                Some((v, n)) => r matches Ok((x, p)) && x@ == v && p == pos + n && pos <= p
                    <= s@.len(),
            },
    {
        reveal(parse_encrypt);
        let p0 = read_exact(s, pos, MAJOR_ARRAY, 4)?;
        proof {
            lemma_skip_skip(s@, pos as int, p0 - pos);
        }
        let (alg, p1) = read_protected(s, p0)?;
        proof {
            lemma_skip_skip(s@, pos as int, p1 - pos);
        }
        let (nonce, p2) = read_iv_header(s, p1)?;
        proof {
            lemma_skip_skip(s@, pos as int, p2 - pos);
        }
        let (ciphertext, p3) = read_string(s, p2, MAJOR_BYTES)?;
        proof {
            lemma_skip_skip(s@, pos as int, p3 - pos);
        }
        let p4 = read_exact(s, p3, MAJOR_ARRAY, 1)?;
        proof {
            lemma_skip_skip(s@, pos as int, p4 - pos);
        }
        let (recipient, p5) = Recipient::decode_from(s, p4)?;
        Ok((CoseEncrypt { alg, nonce, ciphertext, recipient }, p5))
    }

    /// Reads a `COSE_Encrypt` from the front of `s` (trailing bytes are ignored).
    pub fn decode(s: &'b [u8]) -> (r: Result<Self, DecodeError>)
        ensures
            match parse_encrypt(s@) {
                None => r is Err,
                Some((v, _)) => r matches Ok(x) && x@ == v,
            },
    {
        assert(s@.skip(0) =~= s@);
        let (x, _) = CoseEncrypt::decode_from(s, 0)?;
        Ok(x)
    }
}

// ---- Sig_structure ----

/// The context string of a `COSE_Sign1` signature: "Signature1".
pub open spec fn signature1_context() -> Seq<u8> {
    seq![0x53u8, 0x69, 0x67, 0x6e, 0x61, 0x74, 0x75, 0x72, 0x65, 0x31]
}

/// The `Sig_structure` of a `COSE_Sign1` (RFC 9052, section 4.4): the exact bytes
/// that are signed and verified.
pub struct SigStructure<'b> {
    alg: AlgId,
    external_aad: &'b [u8],
    payload: &'b [u8],
}

/// `["Signature1", protected, external_aad, payload]`.
pub open spec fn ser_sig_structure(alg: i64, external_aad: Seq<u8>, payload: Seq<u8>) -> Seq<u8> {
    ser_head(MAJOR_ARRAY, 4) + ser_string(MAJOR_TEXT, signature1_context()) + ser_protected(alg)
        + ser_bytes(external_aad) + ser_bytes(payload)
}

impl<'b> View for SigStructure<'b> {
    /// The algorithm, the external additional data and the payload.
    type V = (i64, Seq<u8>, Seq<u8>);

    closed spec fn view(&self) -> (i64, Seq<u8>, Seq<u8>) {
        (self.alg@, self.external_aad@, self.payload@)
    }
}

impl<'b> SigStructure<'b> {
    /// The `Sig_structure` for `alg`, external additional data and payload.
    pub fn new(alg: AlgId, external_aad: &'b [u8], payload: &'b [u8]) -> (r: Self)
        ensures
            r@ == (alg@, external_aad@, payload@),
    {
        SigStructure { alg, external_aad, payload }
    }

    /// The to-be-signed bytes.
    pub fn encode(&self) -> (r: Vec<u8>)
        ensures
            r@ == ser_sig_structure(self@.0, self@.1, self@.2),
    {
        let mut out = Vec::new();
        let context: [u8; 10] = [0x53, 0x69, 0x67, 0x6e, 0x61, 0x74, 0x75, 0x72, 0x65, 0x31];
        assert(context@ =~= signature1_context());
        push_head(&mut out, MAJOR_ARRAY, 4);
        push_string(&mut out, MAJOR_TEXT, context.as_slice());
        push_protected(&mut out, self.alg);
        push_string(&mut out, MAJOR_BYTES, self.external_aad);
        push_string(&mut out, MAJOR_BYTES, self.payload);
        assert(out@ =~= ser_sig_structure(self.alg@, self.external_aad@, self.payload@));
        out
    }
}

} // verus!
