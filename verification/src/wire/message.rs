//! Host<->device request/response messages (the USB-CDC protocol payloads).
//!
//! Each message encodes as a flat CBOR array led by an integer tag: `[tag, ...fields]`.
//! `Request` (host -> device) and `Response` (device -> host) are separate enums with
//! separate tag spaces. Text fields are printable ASCII; byte fields borrow the input,
//! zero-copy, like the COSE and manifest types.
use vstd::prelude::*;
use crate::wire::alg::{push_alg, read_alg, AlgId};
use crate::wire::ascii::{
    is_printable, lemma_ascii_roundtrip, parse_ascii, push_ascii, read_ascii, ser_text, AsciiStr,
};
use crate::wire::cbor::{
    shift, parse_string,
    lemma_bool_roundtrip, lemma_container_roundtrip, lemma_i64_roundtrip, lemma_skip_prefix,
    lemma_skip_skip, lemma_string_roundtrip, lemma_uint_roundtrip, parse_bool, parse_bytes,
    parse_container, parse_i64, parse_uint, push_bool, push_head, push_i64, push_string, push_uint,
    read_bool, read_container, read_i64, read_string, read_u8, ser_bool, ser_bytes, ser_head,
    ser_i64, ser_uint, DecodeError, MAJOR_ARRAY, MAJOR_BYTES,
};
use crate::wire::cose::{
    encrypt_wf, lemma_encrypt_roundtrip, lemma_sign1_roundtrip, parse_encrypt, parse_sign1,
    ser_encrypt, ser_sign1, sign1_wf, CoseEncrypt, CoseSign1, EncryptView, Sign1View,
};
use crate::wire::error::{
    is_canonical, lemma_code_of_codepoint, parse_error_code, push_error_code, read_error_code,
    ser_error_code, spec_codepoint, spec_from_code, ErrorCode,
};
use crate::wire::manifest::{
    digest_wf, lemma_digest_roundtrip, lemma_manifest_roundtrip, manifest_wf, parse_digest,
    parse_manifest, push_digest, read_digest, ser_digest, ser_manifest, DigestView, Manifest,
    ManifestView, SuitDigest,
};

verus! {

/// Wire tags of the requests (host -> device): the leading integer of the array.
pub const REQUEST_HANDSHAKE: u8 = 1;
pub const REQUEST_GET_INFO: u8 = 2;
pub const REQUEST_INIT_KEYS: u8 = 3;
pub const REQUEST_SIGN: u8 = 4;
pub const REQUEST_INSTALL_ENCRYPTED_IMAGE: u8 = 5;
pub const REQUEST_ATTEST: u8 = 6;

/// Wire tags of the responses (device -> host).
pub const RESPONSE_INFO: u8 = 1;
pub const RESPONSE_PUBLIC_KEYS: u8 = 2;
pub const RESPONSE_COSE_SIGN1: u8 = 3;
pub const RESPONSE_BOOT_DECISION: u8 = 4;
pub const RESPONSE_ATTESTATION: u8 = 5;
pub const RESPONSE_ERROR: u8 = 6;

/// Maximum number of algorithm identifiers carried in an `Info` list.
pub const MAX_ALGS: usize = 8;

// ---- the bounded algorithm list ----

/// A bounded list of at most [`MAX_ALGS`] algorithm identifiers.
#[derive(Debug, PartialEq, Eq)]
pub struct AlgList {
    algs: Vec<AlgId>,
}

/// The integer identifiers of a sequence of algorithm ids.
pub open spec fn alg_ids(v: Seq<AlgId>) -> Seq<i64> {
    Seq::new(v.len(), |i: int| v[i]@)
}

impl View for AlgList {
    type V = Seq<i64>;

    closed spec fn view(&self) -> Seq<i64> {
        alg_ids(self.algs@)
    }
}

impl Clone for AlgList {
    fn clone(&self) -> (r: Self)
        ensures
            r@ == self@,
    {
        proof {
            use_type_invariant(self);
        }
        let mut algs: Vec<AlgId> = Vec::new();
        let mut i: usize = 0;
        while i < self.algs.len()
            invariant
                i <= self.algs@.len() <= MAX_ALGS,
                algs@ == self.algs@.subrange(0, i as int),
            decreases self.algs@.len() - i,
        {
            algs.push(self.algs[i]);
            i = i + 1;
        }
        assert(algs@ =~= self.algs@);
        AlgList { algs }
    }
}

impl AlgList {
    #[verifier::type_invariant]
    spec fn inv(self) -> bool {
        self.algs@.len() <= MAX_ALGS
    }

    /// An empty list.
    pub fn new() -> (r: Self)
        ensures
            r@ == Seq::<i64>::empty(),
    {
        let r = AlgList { algs: Vec::new() };
        assert(r@ =~= Seq::<i64>::empty());
        r
    }

    /// Appends `alg`, or hands it back when the list is full.
    pub fn push(&mut self, alg: AlgId) -> (r: Result<(), AlgId>)
        ensures
            old(self)@.len() < MAX_ALGS ==> r is Ok && final(self)@ == old(self)@.push(alg@),
            old(self)@.len() >= MAX_ALGS ==> r == Err::<(), AlgId>(alg) && final(self)@ == old(
                self,
            )@,
            final(self)@.len() <= MAX_ALGS,
    {
        proof {
            use_type_invariant(&*self);
        }
        if self.algs.len() >= MAX_ALGS {
            return Err(alg);
        }
        let mut algs = Vec::new();
        core::mem::swap(&mut algs, &mut self.algs);
        let ghost before = algs@;
        algs.push(alg);
        assert(alg_ids(algs@) =~= alg_ids(before).push(alg@));
        self.algs = algs;
        Ok(())
    }

    /// The number of identifiers.
    pub fn len(&self) -> (r: usize)
        ensures
            r == self@.len(),
            r <= MAX_ALGS,
    {
        proof {
            use_type_invariant(self);
        }
        self.algs.len()
    }

    /// The identifier at `i`.
    pub fn get(&self, i: usize) -> (r: AlgId)
        requires
            i < self@.len(),
        ensures
            r@ == self@[i as int],
    {
        self.algs[i]
    }
}

/// `count` integers in a row.
#[verifier::opaque]
pub open spec fn parse_algs(s: Seq<u8>, count: nat) -> Option<(Seq<i64>, int)>
    decreases count,
{
    if count == 0 {
        Some((Seq::empty(), 0))
    } else {
        match parse_algs(s, (count - 1) as nat) {
            Some((v, n)) => if 0 <= n <= s.len() {
                match parse_i64(s.skip(n)) {
                    Some((a, m)) => Some((v.push(a), n + m)),
                    None => None,
                }
            } else {
                None
            },
            None => None,
        }
    }
}

/// The identifiers one after another, without an array head.
pub open spec fn ser_algs(v: Seq<i64>) -> Seq<u8>
    decreases v.len(),
{
    if v.len() == 0 {
        Seq::empty()
    } else {
        ser_algs(v.drop_last()) + ser_i64(v.last())
    }
}

/// A definite array of at most [`MAX_ALGS`] integers. A longer list is rejected.
pub open spec fn parse_alg_list(s: Seq<u8>) -> Option<(Seq<i64>, int)> {
    match parse_container(s, MAJOR_ARRAY) {
        Some((Some(len), n0)) => if len > MAX_ALGS {
            None
        } else {
            match parse_algs(s.skip(n0), len as nat) {
                Some((v, n1)) => Some((v, n0 + n1)),
                None => None,
            }
        },
        _ => None,
    }
}

/// An algorithm list on the wire: a definite array of the identifiers.
pub open spec fn ser_alg_list(v: Seq<i64>) -> Seq<u8> {
    ser_head(MAJOR_ARRAY, v.len() as u64) + ser_algs(v)
}

proof fn lemma_algs_roundtrip(v: Seq<i64>, rest: Seq<u8>)
    ensures
        parse_algs(ser_algs(v) + rest, v.len()) == Some((v, ser_algs(v).len() as int)),
    decreases v.len(),
{
    reveal(parse_algs);
    if v.len() > 0 {
        let w = v.drop_last();
        let last = ser_i64(v.last());
        lemma_algs_roundtrip(w, last + rest);
        assert(ser_algs(v) + rest =~= ser_algs(w) + (last + rest));
        lemma_skip_prefix(ser_algs(w), last + rest);
        lemma_i64_roundtrip(v.last(), rest);
        assert(w.push(v.last()) =~= v);
    }
}

/// Reading an algorithm list of at most [`MAX_ALGS`] entries back from its encoding
/// gives the same identifiers and consumes exactly the encoding, whatever bytes follow.
pub proof fn lemma_alg_list_roundtrip(v: Seq<i64>, rest: Seq<u8>)
    requires
        v.len() <= MAX_ALGS,
    ensures
        parse_alg_list(ser_alg_list(v) + rest) == Some((v, ser_alg_list(v).len() as int)),
{
    let h = ser_head(MAJOR_ARRAY, v.len() as u64);
    assert(ser_alg_list(v) + rest =~= h + (ser_algs(v) + rest));
    lemma_container_roundtrip(MAJOR_ARRAY, v.len() as u64, ser_algs(v) + rest);
    lemma_skip_prefix(h, ser_algs(v) + rest);
    lemma_algs_roundtrip(v, rest);
}

/// Appends the list as a definite array of identifiers.
pub fn push_alg_list(out: &mut Vec<u8>, list: &AlgList)
    ensures
        final(out)@ == old(out)@ + ser_alg_list(list@),
        list@.len() <= MAX_ALGS,
{
    let ghost start = out@;
    let n = list.len();
    push_head(out, MAJOR_ARRAY, n as u64);
    let ghost after_head = out@;
    let mut i: usize = 0;
    while i < n
        invariant
            i <= n,
            n == list@.len(),
            out@ == after_head + ser_algs(list@.subrange(0, i as int)),
        decreases n - i,
    {
        let a = list.get(i);
        push_alg(out, a);
        proof {
            let sub = list@.subrange(0, i + 1);
            assert(sub.drop_last() =~= list@.subrange(0, i as int));
        }
        i = i + 1;
    }
    assert(list@.subrange(0, n as int) =~= list@);
    assert(out@ =~= start + ser_alg_list(list@));
}

/// Reads a definite array of at most [`MAX_ALGS`] identifiers at `pos`; a longer
/// array, or an indefinite one, is an error.
pub fn read_alg_list(s: &[u8], pos: usize) -> (r: Result<(AlgList, usize), DecodeError>)
    requires
        pos <= s@.len(),
    ensures
        match parse_alg_list(s@.skip(pos as int)) {
            None => r is Err,
            Some((v, n)) => r matches Ok((x, p)) && x@ == v && p == pos + n && pos <= p
                <= s@.len(),
        },
{
    let (len, p0) = read_container(s, pos, MAJOR_ARRAY)?;
    let len = match len {
        Some(l) => l,
        None => return Err(DecodeError),
    };
    if len > MAX_ALGS as u64 {
        return Err(DecodeError);
    }
    proof {
        lemma_skip_skip(s@, pos as int, p0 - pos);
        reveal(parse_algs);
    }
    assert(parse_alg_list(s@.skip(pos as int)) == match parse_algs(s@.skip(p0 as int), len as nat) {
        Some((v, n1)) => Some((v, p0 - pos + n1)),
        None => None,
    });
    let mut list = AlgList::new();
    let mut p = p0;
    let mut i: u64 = 0;
    while i < len
        invariant
            pos <= p0 <= p <= s@.len(),
            i <= len <= MAX_ALGS,
            parse_alg_list(s@.skip(pos as int)) == match parse_algs(s@.skip(p0 as int), len as nat) {
                Some((v, n1)) => Some((v, p0 - pos + n1)),
                None => None,
            },
            list@.len() == i,
            parse_algs(s@.skip(p0 as int), i as nat) == Some((list@, p - p0)),
        decreases len - i,
    {
        proof {
            reveal(parse_algs);
            lemma_skip_skip(s@, p0 as int, p - p0);
        }
        let (a, p1) = match read_alg(s, p) {
            Ok(x) => x,
            Err(e) => {
                assert(parse_algs(s@.skip(p0 as int), (i + 1) as nat) is None);
                proof {
                    lemma_parse_algs_none_grows(s@.skip(p0 as int), (i + 1) as nat, len as nat);
                }
                return Err(e);
            },
        };
        let _ = list.push(a);
        p = p1;
        i = i + 1;
    }
    Ok((list, p))
}

/// Once a run of integers fails to parse, every longer run fails too.
proof fn lemma_parse_algs_none_grows(s: Seq<u8>, k: nat, n: nat)
    requires
        k <= n,
        parse_algs(s, k) is None,
    ensures
        parse_algs(s, n) is None,
    decreases n - k,
{
    if k < n {
        lemma_parse_algs_none_grows(s, k, (n - 1) as nat);
        reveal(parse_algs);
    }
}

// ---- the tagged array ----

/// Reads the head of a message: a definite array and its leading tag.
pub open spec fn parse_tagged(s: Seq<u8>) -> Option<(u64, u64, int)> {
    match parse_container(s, MAJOR_ARRAY) {
        Some((Some(len), n0)) => match parse_uint(s.skip(n0), 0xff) {
            Some((tag, n1)) => Some((len, tag, n0 + n1)),
            None => None,
        },
        _ => None,
    }
}

/// A message's lead: the array head of its arity, then its tag.
pub open spec fn ser_tagged(len: u64, tag: u8) -> Seq<u8> {
    ser_head(MAJOR_ARRAY, len) + ser_uint(tag as u64)
}

proof fn lemma_tagged_roundtrip(len: u64, tag: u8, rest: Seq<u8>)
    ensures
        parse_tagged(ser_tagged(len, tag) + rest) == Some(
            (len, tag as u64, ser_tagged(len, tag).len() as int),
        ),
{
    let h = ser_head(MAJOR_ARRAY, len);
    let t = ser_uint(tag as u64);
    let s = ser_tagged(len, tag) + rest;
    assert(s =~= h + (t + rest));
    lemma_container_roundtrip(MAJOR_ARRAY, len, t + rest);
    lemma_skip_prefix(h, t + rest);
    lemma_uint_roundtrip(tag as u64, 0xff, rest);
}

fn push_tagged(out: &mut Vec<u8>, len: u64, tag: u8)
    ensures
        final(out)@ == old(out)@ + ser_tagged(len, tag),
{
    let ghost start = out@;
    push_head(out, MAJOR_ARRAY, len);
    push_uint(out, tag as u64);
    assert(out@ =~= start + ser_tagged(len, tag));
}

fn read_tagged(s: &[u8], pos: usize) -> (r: Result<(u64, u8, usize), DecodeError>)
    requires
        pos <= s@.len(),
    ensures
        match parse_tagged(s@.skip(pos as int)) {
            None => r is Err,
            Some((len, tag, n)) => r matches Ok((l, t, p)) && l == len && t == tag && p == pos + n
                && pos <= p <= s@.len(),
        },
{
    let (len, p0) = read_container(s, pos, MAJOR_ARRAY)?;
    let len = match len {
        Some(l) => l,
        None => return Err(DecodeError),
    };
    proof {
        lemma_skip_skip(s@, pos as int, p0 - pos);
    }
    let (tag, p1) = read_u8(s, p0)?;
    Ok((len, tag, p1))
}


// ---- requests ----

/// A request from host to device.
#[derive(Debug, Clone, Copy, PartialEq, Eq)]
pub enum Request<'b> {
    /// Channel-setup handshake message.
    Handshake { payload: &'b [u8] },
    /// Report device capabilities (answered by `Response::Info`).
    GetInfo,
    /// Generate the signing and KEM key pairs (answered by `Response::PublicKeys`).
    InitKeys { sig_alg: AlgId, kem_alg: AlgId },
    /// Sign a digest with the given algorithm (answered by `Response::CoseSign1`).
    Sign {
        /// Signature algorithm to use.
        sig_alg: AlgId,
        /// The digest to sign.
        digest: SuitDigest<'b>,
        /// Human-readable consent prompt shown on the device display.
        prompt: AsciiStr<'b>,
    },
    /// Install an encrypted firmware image (answered by `Response::BootDecision`).
    InstallEncryptedImage {
        /// The encrypted image with the recipient holding the wrapped content key.
        image: CoseEncrypt<'b>,
        /// The signed manifest binding the image.
        manifest: Manifest<'b>,
    },
    /// Request a signed attestation over a challenge nonce (answered by
    /// `Response::Attestation`).
    Attest { challenge: &'b [u8] },
}

/// The model of a [`Request`].
pub enum RequestView {
    Handshake { payload: Seq<u8> },
    GetInfo,
    InitKeys { sig_alg: i64, kem_alg: i64 },
    Sign { sig_alg: i64, digest: DigestView, prompt: Seq<u8> },
    InstallEncryptedImage { image: EncryptView, manifest: ManifestView },
    Attest { challenge: Seq<u8> },
}

impl<'b> View for Request<'b> {
    type V = RequestView;

    open spec fn view(&self) -> RequestView {
        match *self {
            Request::Handshake { payload } => RequestView::Handshake { payload: payload@ },
            Request::GetInfo => RequestView::GetInfo,
            Request::InitKeys { sig_alg, kem_alg } => RequestView::InitKeys {
                sig_alg: sig_alg@,
                kem_alg: kem_alg@,
            },
            Request::Sign { sig_alg, digest, prompt } => RequestView::Sign {
                sig_alg: sig_alg@,
                digest: digest@,
                prompt: prompt@,
            },
            Request::InstallEncryptedImage { image, manifest } => {
                RequestView::InstallEncryptedImage { image: image@, manifest: manifest@ }
            },
            Request::Attest { challenge } => RequestView::Attest { challenge: challenge@ },
        }
    }
}

/// What every request value satisfies: lengths fit a CBOR head and text is printable.
pub open spec fn request_wf(r: RequestView) -> bool {
    match r {
        RequestView::Handshake { payload } => payload.len() <= u64::MAX,
        RequestView::GetInfo => true,
        RequestView::InitKeys { .. } => true,
        RequestView::Sign { digest, prompt, .. } => digest_wf(digest) && is_printable(prompt)
            && prompt.len() <= u64::MAX,
        RequestView::InstallEncryptedImage { image, manifest } => encrypt_wf(image) && manifest_wf(
            manifest,
        ),
        RequestView::Attest { challenge } => challenge.len() <= u64::MAX,
    }
}

/// The leading tag of a request.
pub open spec fn request_tag(r: RequestView) -> u8 {
    match r {
        RequestView::Handshake { .. } => REQUEST_HANDSHAKE,
        RequestView::GetInfo => REQUEST_GET_INFO,
        RequestView::InitKeys { .. } => REQUEST_INIT_KEYS,
        RequestView::Sign { .. } => REQUEST_SIGN,
        RequestView::InstallEncryptedImage { .. } => REQUEST_INSTALL_ENCRYPTED_IMAGE,
        RequestView::Attest { .. } => REQUEST_ATTEST,
    }
}

/// The array length of a request: the tag plus its fields.
pub open spec fn request_arity(r: RequestView) -> u64 {
    match r {
        RequestView::Handshake { .. } => 2,
        RequestView::GetInfo => 1,
        RequestView::InitKeys { .. } => 3,
        RequestView::Sign { .. } => 4,
        RequestView::InstallEncryptedImage { .. } => 3,
        RequestView::Attest { .. } => 2,
    }
}

/// The fields of a request, after its tag.
pub open spec fn ser_request_body(r: RequestView) -> Seq<u8> {
    match r {
        RequestView::Handshake { payload } => ser_bytes(payload),
        RequestView::GetInfo => Seq::empty(),
        RequestView::InitKeys { sig_alg, kem_alg } => ser_i64(sig_alg) + ser_i64(kem_alg),
        RequestView::Sign { sig_alg, digest, prompt } => ser_i64(sig_alg) + (ser_digest(digest)
            + ser_text(prompt)),
        RequestView::InstallEncryptedImage { image, manifest } => ser_encrypt(image)
            + ser_manifest(manifest),
        RequestView::Attest { challenge } => ser_bytes(challenge),
    }
}

/// The encoding of a request: `[tag, ...fields]`.
pub open spec fn ser_request(r: RequestView) -> Seq<u8> {
    ser_tagged(request_arity(r), request_tag(r)) + ser_request_body(r)
}

/// Reads the fields of a request with array length `len` and tag `tag`; an unknown
/// tag, or a length that is not the tag's arity, is rejected.
#[verifier::opaque]
pub open spec fn parse_request_body(s: Seq<u8>, len: u64, tag: u64) -> Option<(RequestView, int)> {
    if tag == REQUEST_HANDSHAKE && len == 2 {
        match parse_bytes(s) {
            Some((payload, n)) => Some((RequestView::Handshake { payload }, n)),
            None => None,
        }
    } else if tag == REQUEST_GET_INFO && len == 1 {
        Some((RequestView::GetInfo, 0))
    } else if tag == REQUEST_INIT_KEYS && len == 3 {
        match parse_i64(s) {
            Some((sig_alg, n1)) => match parse_i64(s.skip(n1)) {
                Some((kem_alg, n2)) => Some((RequestView::InitKeys { sig_alg, kem_alg }, n1 + n2)),
                None => None,
            },
            None => None,
        }
    } else if tag == REQUEST_SIGN && len == 4 {
        match parse_i64(s) {
            Some((sig_alg, n1)) => match parse_digest(s.skip(n1)) {
                Some((digest, n2)) => match parse_ascii(s.skip(n1 + n2)) {
                    Some((prompt, n3)) => Some(
                        (RequestView::Sign { sig_alg, digest, prompt }, n1 + n2 + n3),
                    ),
                    None => None,
                },
                None => None,
            },
            None => None,
        }
    } else if tag == REQUEST_INSTALL_ENCRYPTED_IMAGE && len == 3 {
        match parse_encrypt(s) {
            Some((image, n1)) => match parse_manifest(s.skip(n1)) {
                Some((manifest, n2)) => Some(
                    (RequestView::InstallEncryptedImage { image, manifest }, n1 + n2),
                ),
                None => None,
            },
            None => None,
        }
    } else if tag == REQUEST_ATTEST && len == 2 {
        match parse_bytes(s) {
            Some((challenge, n)) => Some((RequestView::Attest { challenge }, n)),
            None => None,
        }
    } else {
        None
    }
}

/// Reads a request from the front of `s`: a definite array, a known tag, the tag's
/// arity, and its fields. Returns the request and the number of bytes read.
pub open spec fn parse_request(s: Seq<u8>) -> Option<(RequestView, int)> {
    match parse_tagged(s) {
        Some((len, tag, n0)) => shift(parse_request_body(s.skip(n0), len, tag), n0),
        None => None,
    }
}

proof fn lemma_request_body_roundtrip(r: RequestView, rest: Seq<u8>)
    requires
        request_wf(r),
    ensures
        parse_request_body(ser_request_body(r) + rest, request_arity(r), request_tag(r) as u64)
            == Some((r, ser_request_body(r).len() as int)),
{
    reveal(parse_request_body);
    let s = ser_request_body(r) + rest;
    match r {
        RequestView::Handshake { payload } => {
            lemma_string_roundtrip(MAJOR_BYTES, payload, rest);
        },
        RequestView::GetInfo => {},
        RequestView::InitKeys { sig_alg, kem_alg } => {
            let a = ser_i64(sig_alg);
            let b = ser_i64(kem_alg);
            assert(s =~= a + (b + rest));
            lemma_i64_roundtrip(sig_alg, b + rest);
            lemma_skip_prefix(a, b + rest);
            lemma_i64_roundtrip(kem_alg, rest);
        },
        RequestView::Sign { sig_alg, digest, prompt } => {
            let a = ser_i64(sig_alg);
            let b = ser_digest(digest);
            let c = ser_text(prompt);
            assert(s =~= a + (b + (c + rest)));
            lemma_i64_roundtrip(sig_alg, b + (c + rest));
            lemma_skip_prefix(a, b + (c + rest));
            lemma_digest_roundtrip(digest, c + rest);
            assert(s.skip((a.len() + b.len()) as int) =~= c + rest);
            lemma_ascii_roundtrip(prompt, rest);
        },
        RequestView::InstallEncryptedImage { image, manifest } => {
            let a = ser_encrypt(image);
            let b = ser_manifest(manifest);
            assert(s =~= a + (b + rest));
            lemma_encrypt_roundtrip(image, b + rest);
            lemma_skip_prefix(a, b + rest);
            lemma_manifest_roundtrip(manifest, rest);
        },
        RequestView::Attest { challenge } => {
            lemma_string_roundtrip(MAJOR_BYTES, challenge, rest);
        },
    }
}

/// Encoding a request and reading it back gives the same request, whatever follows it.
pub proof fn lemma_request_roundtrip(r: RequestView, rest: Seq<u8>)
    requires
        request_wf(r),
    ensures
        parse_request(ser_request(r) + rest) == Some((r, ser_request(r).len() as int)),
{
    let h = ser_tagged(request_arity(r), request_tag(r));
    let b = ser_request_body(r);
    assert(ser_request(r) + rest =~= h + (b + rest));
    lemma_tagged_roundtrip(request_arity(r), request_tag(r), b + rest);
    lemma_skip_prefix(h, b + rest);
    lemma_request_body_roundtrip(r, rest);
}

impl<'b> Request<'b> {
    /// Appends the encoding of the request.
    pub fn encode_into(&self, out: &mut Vec<u8>)
        ensures
            final(out)@ == old(out)@ + ser_request(self@),
            request_wf(self@),
    {
        let ghost start = out@;
        match self {
            Request::Handshake { payload } => {
                push_tagged(out, 2, REQUEST_HANDSHAKE);
                push_string(out, MAJOR_BYTES, payload);
            },
            Request::GetInfo => {
                push_tagged(out, 1, REQUEST_GET_INFO);
            },
            Request::InitKeys { sig_alg, kem_alg } => {
                push_tagged(out, 3, REQUEST_INIT_KEYS);
                push_alg(out, *sig_alg);
                push_alg(out, *kem_alg);
            },
            Request::Sign { sig_alg, digest, prompt } => {
                push_tagged(out, 4, REQUEST_SIGN);
                push_alg(out, *sig_alg);
                push_digest(out, digest);
                push_ascii(out, prompt);
            },
            Request::InstallEncryptedImage { image, manifest } => {
                push_tagged(out, 3, REQUEST_INSTALL_ENCRYPTED_IMAGE);
                image.encode_into(out);
                manifest.encode_into(out);
            },
            Request::Attest { challenge } => {
                push_tagged(out, 2, REQUEST_ATTEST);
                push_string(out, MAJOR_BYTES, challenge);
            },
        }
        assert(out@ =~= start + ser_request(self@));
    }

    /// The encoding of the request; reading it back gives this request.
    pub fn encode(&self) -> (r: Vec<u8>)
        ensures
            r@ == ser_request(self@),
            parse_request(r@) == Some((self@, r@.len() as int)),
    {
        let mut out = Vec::new();
        self.encode_into(&mut out);
        proof {
            assert(out@ =~= ser_request(self@));
            lemma_request_roundtrip(self@, Seq::empty());
            assert(ser_request(self@) + Seq::<u8>::empty() =~= ser_request(self@));
        }
        out
    }

    /// Reads a request at `pos`, borrowing its byte and text fields from `s`.
    pub fn decode_from(s: &'b [u8], pos: usize) -> (r: Result<(Self, usize), DecodeError>)
        requires
            pos <= s@.len(),
        ensures
            match parse_request(s@.skip(pos as int)) {
                None => r is Err,
                Some((v, n)) => r matches Ok((x, p)) && x@ == v && p == pos + n && pos <= p
                    <= s@.len(),
            },
    {
        let (len, tag, p0) = read_tagged(s, pos)?;
        proof {
            reveal(parse_request_body);
            lemma_skip_skip(s@, pos as int, p0 - pos);
        }
        if tag == REQUEST_HANDSHAKE && len == 2 {
            let (payload, p1) = read_string(s, p0, MAJOR_BYTES)?;
            Ok((Request::Handshake { payload }, p1))
        } else if tag == REQUEST_GET_INFO && len == 1 {
            Ok((Request::GetInfo, p0))
        } else if tag == REQUEST_INIT_KEYS && len == 3 {
            let (sig_alg, p1) = read_alg(s, p0)?;
            proof {
                lemma_skip_skip(s@, p0 as int, p1 - p0);
            }
            let (kem_alg, p2) = read_alg(s, p1)?;
            Ok((Request::InitKeys { sig_alg, kem_alg }, p2))
        } else if tag == REQUEST_SIGN && len == 4 {
            let (sig_alg, p1) = read_alg(s, p0)?;
            proof {
                lemma_skip_skip(s@, p0 as int, p1 - p0);
            }
            let (digest, p2) = read_digest(s, p1)?;
            proof {
                lemma_skip_skip(s@, p0 as int, p2 - p0);
            }
            let (prompt, p3) = read_ascii(s, p2)?;
            Ok((Request::Sign { sig_alg, digest, prompt }, p3))
        } else if tag == REQUEST_INSTALL_ENCRYPTED_IMAGE && len == 3 {
            let (image, p1) = CoseEncrypt::decode_from(s, p0)?;
            proof {
                lemma_skip_skip(s@, p0 as int, p1 - p0);
            }
            let (manifest, p2) = Manifest::decode_from(s, p1)?;
            Ok((Request::InstallEncryptedImage { image, manifest }, p2))
        } else if tag == REQUEST_ATTEST && len == 2 {
            let (challenge, p1) = read_string(s, p0, MAJOR_BYTES)?;
            Ok((Request::Attest { challenge }, p1))
        } else {
            Err(DecodeError)
        }
    }

    /// Reads a request from the front of `s` (trailing bytes are ignored).
    pub fn decode(s: &'b [u8]) -> (r: Result<Self, DecodeError>)
        ensures
            match parse_request(s@) {
                None => r is Err,
                Some((v, _)) => r matches Ok(x) && x@ == v,
            },
    {
        assert(s@.skip(0) =~= s@);
        let (x, _) = Request::decode_from(s, 0)?;
        Ok(x)
    }
}


// ---- responses ----

/// A response from device to host.
#[derive(Debug, Clone, PartialEq, Eq)]
pub enum Response<'b> {
    /// Device capabilities and current state.
    Info {
        /// Firmware version string.
        firmware_version: AsciiStr<'b>,
        /// Supported signature algorithms.
        sig_algs: AlgList,
        /// Supported KEM algorithms.
        kem_algs: AlgList,
        /// Whether the device key pairs have been generated.
        keys_are_present: bool,
        /// Whether the entropy source is currently healthy.
        entropy_is_healthy: bool,
    },
    /// The public keys generated by `InitKeys`.
    PublicKeys {
        /// Algorithm of the signing public key.
        sig_alg: AlgId,
        /// The signing public key bytes.
        sig_public_key: &'b [u8],
        /// Algorithm of the KEM public key.
        kem_alg: AlgId,
        /// The KEM public key bytes.
        kem_public_key: &'b [u8],
    },
    /// A signed message (the `Sign` reply).
    CoseSign1(CoseSign1<'b>),
    /// The outcome of an encrypted-image install (the `InstallEncryptedImage` reply).
    BootDecision {
        /// Whether the image was accepted and booted.
        image_is_accepted: bool,
        /// A digest of the installed image, as evidence of what was installed.
        image_digest: &'b [u8],
    },
    /// A signed attestation over the challenge nonce (the `Attest` reply).
    Attestation(CoseSign1<'b>),
    /// An error reply.
    Error {
        /// The error code.
        code: ErrorCode,
        /// A human-readable detail string (may be empty).
        detail: AsciiStr<'b>,
    },
}

/// The model of a [`Response`].
pub enum ResponseView {
    Info {
        firmware_version: Seq<u8>,
        sig_algs: Seq<i64>,
        kem_algs: Seq<i64>,
        keys_are_present: bool,
        entropy_is_healthy: bool,
    },
    PublicKeys { sig_alg: i64, sig_public_key: Seq<u8>, kem_alg: i64, kem_public_key: Seq<u8> },
    CoseSign1(Sign1View),
    BootDecision { image_is_accepted: bool, image_digest: Seq<u8> },
    Attestation(Sign1View),
    Error { code: ErrorCode, detail: Seq<u8> },
}

impl<'b> View for Response<'b> {
    type V = ResponseView;

    open spec fn view(&self) -> ResponseView {
        match self {
            Response::Info {
                firmware_version,
                sig_algs,
                kem_algs,
                keys_are_present,
                entropy_is_healthy,
            } => ResponseView::Info {
                firmware_version: firmware_version@,
                sig_algs: sig_algs@,
                kem_algs: kem_algs@,
                keys_are_present: *keys_are_present,
                entropy_is_healthy: *entropy_is_healthy,
            },
            Response::PublicKeys { sig_alg, sig_public_key, kem_alg, kem_public_key } => {
                ResponseView::PublicKeys {
                    sig_alg: sig_alg@,
                    sig_public_key: sig_public_key@,
                    kem_alg: kem_alg@,
                    kem_public_key: kem_public_key@,
                }
            },
            Response::CoseSign1(sig) => ResponseView::CoseSign1(sig@),
            Response::BootDecision { image_is_accepted, image_digest } => {
                ResponseView::BootDecision {
                    image_is_accepted: *image_is_accepted,
                    image_digest: image_digest@,
                }
            },
            Response::Attestation(att) => ResponseView::Attestation(att@),
            Response::Error { code, detail } => ResponseView::Error {
                code: *code,
                detail: detail@,
            },
        }
    }
}

/// What every response value satisfies: lengths fit, text is printable and the
/// algorithm lists are bounded.
pub open spec fn response_wf(r: ResponseView) -> bool {
    match r {
        ResponseView::Info { firmware_version, sig_algs, kem_algs, .. } => is_printable(
            firmware_version,
        ) && firmware_version.len() <= u64::MAX && sig_algs.len() <= MAX_ALGS && kem_algs.len()
            <= MAX_ALGS,
        ResponseView::PublicKeys { sig_public_key, kem_public_key, .. } => sig_public_key.len()
            <= u64::MAX && kem_public_key.len() <= u64::MAX,
        ResponseView::CoseSign1(v) => sign1_wf(v),
        ResponseView::BootDecision { image_digest, .. } => image_digest.len() <= u64::MAX,
        ResponseView::Attestation(v) => sign1_wf(v),
        ResponseView::Error { detail, .. } => is_printable(detail) && detail.len() <= u64::MAX,
    }
}

/// The response that decoding an encoded `r` gives: an error code travels as its
/// codepoint, so an `Unknown` code that a named variant owns comes back as that variant.
pub open spec fn normalize_response(r: ResponseView) -> ResponseView {
    match r {
        ResponseView::Error { code, detail } => ResponseView::Error {
            code: spec_from_code(spec_codepoint(code)),
            detail,
        },
        _ => r,
    }
}

/// The wire tag of a response.
pub open spec fn response_tag(r: ResponseView) -> u8 {
    match r {
        ResponseView::Info { .. } => RESPONSE_INFO,
        ResponseView::PublicKeys { .. } => RESPONSE_PUBLIC_KEYS,
        ResponseView::CoseSign1(_) => RESPONSE_COSE_SIGN1,
        ResponseView::BootDecision { .. } => RESPONSE_BOOT_DECISION,
        ResponseView::Attestation(_) => RESPONSE_ATTESTATION,
        ResponseView::Error { .. } => RESPONSE_ERROR,
    }
}

/// The number of array elements of a response, its tag included.
pub open spec fn response_arity(r: ResponseView) -> u64 {
    match r {
        ResponseView::Info { .. } => 6,
        ResponseView::PublicKeys { .. } => 5,
        ResponseView::CoseSign1(_) => 2,
        ResponseView::BootDecision { .. } => 3,
        ResponseView::Attestation(_) => 2,
        ResponseView::Error { .. } => 3,
    }
}

/// The fields of a response after its lead.
pub open spec fn ser_response_body(r: ResponseView) -> Seq<u8> {
    match r {
        ResponseView::Info {
            firmware_version,
            sig_algs,
            kem_algs,
            keys_are_present,
            entropy_is_healthy,
        } => ser_text(firmware_version) + (ser_alg_list(sig_algs) + (ser_alg_list(kem_algs) + (
        ser_bool(keys_are_present) + ser_bool(entropy_is_healthy)))),
        ResponseView::PublicKeys { sig_alg, sig_public_key, kem_alg, kem_public_key } => ser_i64(
            sig_alg,
        ) + (ser_bytes(sig_public_key) + (ser_i64(kem_alg) + ser_bytes(kem_public_key))),
        ResponseView::CoseSign1(v) => ser_sign1(v),
        ResponseView::BootDecision { image_is_accepted, image_digest } => ser_bool(
            image_is_accepted,
        ) + ser_bytes(image_digest),
        ResponseView::Attestation(v) => ser_sign1(v),
        ResponseView::Error { code, detail } => ser_error_code(code) + ser_text(detail),
    }
}

/// The encoding of a response: `[tag, ...fields]`.
pub open spec fn ser_response(r: ResponseView) -> Seq<u8> {
    ser_tagged(response_arity(r), response_tag(r)) + ser_response_body(r)
}

/// Reads the five fields of an `Info` reply.
#[verifier::opaque]
pub open spec fn parse_info_body(s: Seq<u8>) -> Option<(ResponseView, int)> {
    match parse_ascii(s) {
        Some((firmware_version, n1)) => match parse_alg_list(s.skip(n1)) {
            Some((sig_algs, n2)) => match parse_alg_list(s.skip(n1 + n2)) {
                Some((kem_algs, n3)) => match parse_bool(s.skip(n1 + n2 + n3)) {
                    Some((keys_are_present, n4)) => match parse_bool(s.skip(n1 + n2 + n3 + n4)) {
                        Some((entropy_is_healthy, n5)) => Some(
                            (
                                ResponseView::Info {
                                    firmware_version,
                                    sig_algs,
                                    kem_algs,
                                    keys_are_present,
                                    entropy_is_healthy,
                                },
                                n1 + n2 + n3 + n4 + n5,
                            ),
                        ),
                        None => None,
                    },
                    None => None,
                },
                None => None,
            },
            None => None,
        },
        None => None,
    }
}

/// Reads the four fields of a `PublicKeys` reply.
#[verifier::opaque]
pub open spec fn parse_public_keys_body(s: Seq<u8>) -> Option<(ResponseView, int)> {
    match parse_i64(s) {
        Some((sig_alg, n1)) => match parse_bytes(s.skip(n1)) {
            Some((sig_public_key, n2)) => match parse_i64(s.skip(n1 + n2)) {
                Some((kem_alg, n3)) => match parse_bytes(s.skip(n1 + n2 + n3)) {
                    Some((kem_public_key, n4)) => Some(
                        (
                            ResponseView::PublicKeys {
                                sig_alg,
                                sig_public_key,
                                kem_alg,
                                kem_public_key,
                            },
                            n1 + n2 + n3 + n4,
                        ),
                    ),
                    None => None,
                },
                None => None,
            },
            None => None,
        },
        None => None,
    }
}

/// Reads the fields of a response with array length `len` and tag `tag`; an unknown
/// tag, or a length that is not the tag's arity, is rejected.
#[verifier::opaque]
pub open spec fn parse_response_body(s: Seq<u8>, len: u64, tag: u64) -> Option<(ResponseView, int)> {
    if tag == RESPONSE_INFO && len == 6 {
        parse_info_body(s)
    } else if tag == RESPONSE_PUBLIC_KEYS && len == 5 {
        parse_public_keys_body(s)
    } else if tag == RESPONSE_COSE_SIGN1 && len == 2 {
        match parse_sign1(s) {
            Some((v, n)) => Some((ResponseView::CoseSign1(v), n)),
            None => None,
        }
    } else if tag == RESPONSE_BOOT_DECISION && len == 3 {
        match parse_bool(s) {
            Some((image_is_accepted, n1)) => match parse_bytes(s.skip(n1)) {
                Some((image_digest, n2)) => Some(
                    (ResponseView::BootDecision { image_is_accepted, image_digest }, n1 + n2),
                ),
                None => None,
            },
            None => None,
        }
    } else if tag == RESPONSE_ATTESTATION && len == 2 {
        match parse_sign1(s) {
            Some((v, n)) => Some((ResponseView::Attestation(v), n)),
            None => None,
        }
    } else if tag == RESPONSE_ERROR && len == 3 {
        match parse_error_code(s) {
            Some((code, n1)) => match parse_ascii(s.skip(n1)) {
                Some((detail, n2)) => Some((ResponseView::Error { code, detail }, n1 + n2)),
                None => None,
            },
            None => None,
        }
    } else {
        None
    }
}

/// Reads a response from the front of `s`: a definite array, a known tag, the tag's
/// arity, and its fields. Returns the response and the number of bytes read.
pub open spec fn parse_response(s: Seq<u8>) -> Option<(ResponseView, int)> {
    match parse_tagged(s) {
        Some((len, tag, n0)) => shift(parse_response_body(s.skip(n0), len, tag), n0),
        None => None,
    }
}

proof fn lemma_info_body_roundtrip(r: ResponseView, rest: Seq<u8>)
    requires
        response_wf(r),
        r is Info,
    ensures
        parse_info_body(ser_response_body(r) + rest) == Some((r, ser_response_body(r).len() as int)),
{
    reveal(parse_info_body);
    if let ResponseView::Info {
        firmware_version,
        sig_algs,
        kem_algs,
        keys_are_present,
        entropy_is_healthy,
    } = r {
        let a = ser_text(firmware_version);
        let b = ser_alg_list(sig_algs);
        let c = ser_alg_list(kem_algs);
        let d = ser_bool(keys_are_present);
        let e = ser_bool(entropy_is_healthy);
        let s = ser_response_body(r) + rest;
        assert(s =~= a + (b + (c + (d + (e + rest)))));
        lemma_ascii_roundtrip(firmware_version, b + (c + (d + (e + rest))));
        lemma_skip_prefix(a, b + (c + (d + (e + rest))));
        lemma_alg_list_roundtrip(sig_algs, c + (d + (e + rest)));
        assert(s.skip((a.len() + b.len()) as int) =~= c + (d + (e + rest)));
        lemma_alg_list_roundtrip(kem_algs, d + (e + rest));
        assert(s.skip((a.len() + b.len() + c.len()) as int) =~= d + (e + rest));
        lemma_bool_roundtrip(keys_are_present, e + rest);
        assert(s.skip((a.len() + b.len() + c.len() + d.len()) as int) =~= e + rest);
        lemma_bool_roundtrip(entropy_is_healthy, rest);
    }
}

proof fn lemma_public_keys_body_roundtrip(r: ResponseView, rest: Seq<u8>)
    requires
        response_wf(r),
        r is PublicKeys,
    ensures
        parse_public_keys_body(ser_response_body(r) + rest) == Some(
            (r, ser_response_body(r).len() as int),
        ),
{
    reveal(parse_public_keys_body);
    if let ResponseView::PublicKeys { sig_alg, sig_public_key, kem_alg, kem_public_key } = r {
        let a = ser_i64(sig_alg);
        let b = ser_bytes(sig_public_key);
        let c = ser_i64(kem_alg);
        let d = ser_bytes(kem_public_key);
        let s = ser_response_body(r) + rest;
        assert(s =~= a + (b + (c + (d + rest))));
        lemma_i64_roundtrip(sig_alg, b + (c + (d + rest)));
        lemma_skip_prefix(a, b + (c + (d + rest)));
        lemma_string_roundtrip(MAJOR_BYTES, sig_public_key, c + (d + rest));
        assert(s.skip((a.len() + b.len()) as int) =~= c + (d + rest));
        lemma_i64_roundtrip(kem_alg, d + rest);
        assert(s.skip((a.len() + b.len() + c.len()) as int) =~= d + rest);
        lemma_string_roundtrip(MAJOR_BYTES, kem_public_key, rest);
    }
}

proof fn lemma_response_body_roundtrip(r: ResponseView, rest: Seq<u8>)
    requires
        response_wf(r),
    ensures
        parse_response_body(ser_response_body(r) + rest, response_arity(r), response_tag(r) as u64)
            == Some((normalize_response(r), ser_response_body(r).len() as int)),
{
    reveal(parse_response_body);
    let s = ser_response_body(r) + rest;
    match r {
        ResponseView::Info { .. } => {
            lemma_info_body_roundtrip(r, rest);
        },
        ResponseView::PublicKeys { .. } => {
            lemma_public_keys_body_roundtrip(r, rest);
        },
        ResponseView::CoseSign1(v) => {
            lemma_sign1_roundtrip(v, rest);
        },
        ResponseView::BootDecision { image_is_accepted, image_digest } => {
            let a = ser_bool(image_is_accepted);
            let b = ser_bytes(image_digest);
            assert(s =~= a + (b + rest));
            lemma_bool_roundtrip(image_is_accepted, b + rest);
            lemma_skip_prefix(a, b + rest);
            lemma_string_roundtrip(MAJOR_BYTES, image_digest, rest);
        },
        ResponseView::Attestation(v) => {
            lemma_sign1_roundtrip(v, rest);
        },
        ResponseView::Error { code, detail } => {
            let a = ser_error_code(code);
            let b = ser_text(detail);
            assert(s =~= a + (b + rest));
            lemma_uint_roundtrip(spec_codepoint(code) as u64, u32::MAX as u64, b + rest);
            lemma_skip_prefix(a, b + rest);
            lemma_ascii_roundtrip(detail, rest);
        },
    }
}

/// Encoding a response and reading it back gives the same response, whatever follows
/// it; an error code comes back as the variant that owns its codepoint.
pub proof fn lemma_response_roundtrip(r: ResponseView, rest: Seq<u8>)
    requires
        response_wf(r),
    ensures
        parse_response(ser_response(r) + rest) == Some(
            (normalize_response(r), ser_response(r).len() as int),
        ),
{
    let h = ser_tagged(response_arity(r), response_tag(r));
    let b = ser_response_body(r);
    assert(ser_response(r) + rest =~= h + (b + rest));
    lemma_tagged_roundtrip(response_arity(r), response_tag(r), b + rest);
    lemma_skip_prefix(h, b + rest);
    lemma_response_body_roundtrip(r, rest);
}

/// A response whose error code is one that decoding produces reads back unchanged.
pub proof fn lemma_response_roundtrip_canonical(r: ResponseView, rest: Seq<u8>)
    requires
        response_wf(r),
        r matches ResponseView::Error { code, .. } ==> is_canonical(code),
    ensures
        parse_response(ser_response(r) + rest) == Some((r, ser_response(r).len() as int)),
{
    lemma_response_roundtrip(r, rest);
    if let ResponseView::Error { code, .. } = r {
        lemma_code_of_codepoint(code);
    }
}

impl<'b> Response<'b> {
    /// Appends the encoding of the response.
    pub fn encode_into(&self, out: &mut Vec<u8>)
        ensures
            final(out)@ == old(out)@ + ser_response(self@),
            response_wf(self@),
    {
        let ghost start = out@;
        match self {
            Response::Info {
                firmware_version,
                sig_algs,
                kem_algs,
                keys_are_present,
                entropy_is_healthy,
            } => {
                push_tagged(out, 6, RESPONSE_INFO);
                push_ascii(out, firmware_version);
                push_alg_list(out, sig_algs);
                push_alg_list(out, kem_algs);
                push_bool(out, *keys_are_present);
                push_bool(out, *entropy_is_healthy);
            },
            Response::PublicKeys { sig_alg, sig_public_key, kem_alg, kem_public_key } => {
                push_tagged(out, 5, RESPONSE_PUBLIC_KEYS);
                push_alg(out, *sig_alg);
                push_string(out, MAJOR_BYTES, sig_public_key);
                push_alg(out, *kem_alg);
                push_string(out, MAJOR_BYTES, kem_public_key);
            },
            Response::CoseSign1(sig) => {
                push_tagged(out, 2, RESPONSE_COSE_SIGN1);
                sig.encode_into(out);
            },
            Response::BootDecision { image_is_accepted, image_digest } => {
                push_tagged(out, 3, RESPONSE_BOOT_DECISION);
                push_bool(out, *image_is_accepted);
                push_string(out, MAJOR_BYTES, image_digest);
            },
            Response::Attestation(att) => {
                push_tagged(out, 2, RESPONSE_ATTESTATION);
                att.encode_into(out);
            },
            Response::Error { code, detail } => {
                push_tagged(out, 3, RESPONSE_ERROR);
                push_error_code(out, *code);
                push_ascii(out, detail);
            },
        }
        assert(out@ =~= start + ser_response(self@));
    }

    /// The encoding of the response; reading it back gives this response, with an
    /// error code as the variant that owns its codepoint.
    pub fn encode(&self) -> (r: Vec<u8>)
        ensures
            r@ == ser_response(self@),
            parse_response(r@) == Some((normalize_response(self@), r@.len() as int)),
    {
        let mut out = Vec::new();
        self.encode_into(&mut out);
        proof {
            assert(out@ =~= ser_response(self@));
            lemma_response_roundtrip(self@, Seq::empty());
            assert(ser_response(self@) + Seq::<u8>::empty() =~= ser_response(self@));
        }
        out
    }

    fn decode_info(s: &'b [u8], p0: usize) -> (r: Result<(Self, usize), DecodeError>)
        requires
            p0 <= s@.len(),
        ensures
            match parse_info_body(s@.skip(p0 as int)) {
                None => r is Err,
                Some((v, n)) => r matches Ok((x, p)) && x@ == v && p == p0 + n && p0 <= p
                    <= s@.len(),
            },
    {
        reveal(parse_info_body);
        let (firmware_version, p1) = read_ascii(s, p0)?;
        proof {
            lemma_skip_skip(s@, p0 as int, p1 - p0);
        }
        let (sig_algs, p2) = read_alg_list(s, p1)?;
        proof {
            lemma_skip_skip(s@, p0 as int, p2 - p0);
        }
        let (kem_algs, p3) = read_alg_list(s, p2)?;
        proof {
            lemma_skip_skip(s@, p0 as int, p3 - p0);
        }
        let (keys_are_present, p4) = read_bool(s, p3)?;
        proof {
            lemma_skip_skip(s@, p0 as int, p4 - p0);
        }
        let (entropy_is_healthy, p5) = read_bool(s, p4)?;
        Ok(
            (
                Response::Info {
                    firmware_version,
                    sig_algs,
                    kem_algs,
                    keys_are_present,
                    entropy_is_healthy,
                },
                p5,
            ),
        )
    }

    fn decode_public_keys(s: &'b [u8], p0: usize) -> (r: Result<(Self, usize), DecodeError>)
        requires
            p0 <= s@.len(),
        ensures
            match parse_public_keys_body(s@.skip(p0 as int)) {
                None => r is Err,
                Some((v, n)) => r matches Ok((x, p)) && x@ == v && p == p0 + n && p0 <= p
                    <= s@.len(),
            },
    {
        reveal(parse_public_keys_body);
        let (sig_alg, p1) = read_alg(s, p0)?;
        proof {
            lemma_skip_skip(s@, p0 as int, p1 - p0);
        }
        let (sig_public_key, p2) = read_string(s, p1, MAJOR_BYTES)?;
        proof {
            lemma_skip_skip(s@, p0 as int, p2 - p0);
        }
        let (kem_alg, p3) = read_alg(s, p2)?;
        proof {
            lemma_skip_skip(s@, p0 as int, p3 - p0);
        }
        let (kem_public_key, p4) = read_string(s, p3, MAJOR_BYTES)?;
        Ok((Response::PublicKeys { sig_alg, sig_public_key, kem_alg, kem_public_key }, p4))
    }

    /// Reads a response at `pos`, borrowing its byte and text fields from `s`.
    pub fn decode_from(s: &'b [u8], pos: usize) -> (r: Result<(Self, usize), DecodeError>)
        requires
            pos <= s@.len(),
        ensures
            match parse_response(s@.skip(pos as int)) {
                None => r is Err,
                Some((v, n)) => r matches Ok((x, p)) && x@ == v && p == pos + n && pos <= p
                    <= s@.len(),
            },
    {
        let (len, tag, p0) = read_tagged(s, pos)?;
        proof {
            reveal(parse_response_body);
            lemma_skip_skip(s@, pos as int, p0 - pos);
        }
        if tag == RESPONSE_INFO && len == 6 {
            Response::decode_info(s, p0)
        } else if tag == RESPONSE_PUBLIC_KEYS && len == 5 {
            Response::decode_public_keys(s, p0)
        } else if tag == RESPONSE_COSE_SIGN1 && len == 2 {
            let (sig, p1) = CoseSign1::decode_from(s, p0)?;
            Ok((Response::CoseSign1(sig), p1))
        } else if tag == RESPONSE_BOOT_DECISION && len == 3 {
            let (image_is_accepted, p1) = read_bool(s, p0)?;
            proof {
                lemma_skip_skip(s@, p0 as int, p1 - p0);
            }
            let (image_digest, p2) = read_string(s, p1, MAJOR_BYTES)?;
            Ok((Response::BootDecision { image_is_accepted, image_digest }, p2))
        } else if tag == RESPONSE_ATTESTATION && len == 2 {
            let (att, p1) = CoseSign1::decode_from(s, p0)?;
            Ok((Response::Attestation(att), p1))
        } else if tag == RESPONSE_ERROR && len == 3 {
            let (code, p1) = read_error_code(s, p0)?;
            proof {
                lemma_skip_skip(s@, p0 as int, p1 - p0);
            }
            let (detail, p2) = read_ascii(s, p1)?;
            Ok((Response::Error { code, detail }, p2))
        } else {
            Err(DecodeError)
        }
    }

    /// Reads a response from the front of `s` (trailing bytes are ignored).
    pub fn decode(s: &'b [u8]) -> (r: Result<Self, DecodeError>)
        ensures
            match parse_response(s@) {
                None => r is Err,
                Some((v, _)) => r matches Ok(x) && x@ == v,
            },
    {
        assert(s@.skip(0) =~= s@);
        let (x, _) = Response::decode_from(s, 0)?;
        Ok(x)
    }
}

} // verus!
