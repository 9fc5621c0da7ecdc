//! SUIT-aligned firmware/update manifest.
//!
//! The signed "packing slip" for an update: it binds the (possibly encrypted)
//! payload by digest plus metadata, and is itself signed via `COSE_Sign1`. This is a
//! flat local profile of the IETF SUIT manifest model: the descriptive and binding
//! fields, without the SUIT command-sequence machinery.
//!
//! This module frames and parses the bytes; hashing the image and checking the
//! signature are the crypto / verifier layer's job.
use vstd::prelude::*;
use crate::wire::alg::{push_alg, read_alg, AlgId};
use crate::wire::ascii::{
    is_printable, lemma_ascii_roundtrip, parse_ascii, push_ascii, read_ascii, ser_text, AsciiStr,
};
use crate::wire::cbor::{
    lemma_bool_roundtrip, lemma_concat_skip, lemma_container_roundtrip, lemma_i64_roundtrip,
    lemma_skip_skip, lemma_string_roundtrip, lemma_uint_roundtrip, parse_bytes, parse_container,
    parse_exact, parse_i64, parse_uint, push_head, push_string, push_uint, read_container,
    read_exact, read_string, read_u8, read_uint, ser_bytes, ser_head, ser_i64, ser_uint, shift,
    DecodeError, MAJOR_ARRAY, MAJOR_BYTES, MAJOR_MAP,
};

verus! {

// ---- the digest binding ----

/// The model of a [`SuitDigest`]: the hash algorithm and the digest bytes.
pub struct DigestView {
    pub alg: i64,
    pub bytes: Seq<u8>,
}

/// A SUIT-style digest: the hash algorithm plus the digest bytes (`[alg, bstr]`).
///
/// Carrying the algorithm makes the binding profile-agnostic -- SHA-256 or SHA-384 --
/// rather than locking the manifest to one hash.
#[derive(Debug, Clone, Copy, PartialEq, Eq)]
pub struct SuitDigest<'b> {
    alg: AlgId,
    bytes: &'b [u8],
}

impl<'b> View for SuitDigest<'b> {
    type V = DigestView;

    closed spec fn view(&self) -> DigestView {
        DigestView { alg: self.alg@, bytes: self.bytes@ }
    }
}

impl<'b> SuitDigest<'b> {
    /// Creates a digest binding from a hash algorithm and its digest bytes.
    pub fn new(alg: AlgId, bytes: &'b [u8]) -> (r: Self)
        ensures
            r@ == (DigestView { alg: alg@, bytes: bytes@ }),
    {
        SuitDigest { alg, bytes }
    }

    /// The hash algorithm identifier.
    pub fn alg(&self) -> (r: AlgId)
        ensures
            r@ == self@.alg,
    {
        self.alg
    }

    /// The digest bytes.
    pub fn bytes(&self) -> (r: &'b [u8])
        ensures
            r@ == self@.bytes,
    {
        self.bytes
    }

    /// Whether two digests agree in both algorithm and bytes.
    pub fn same_as(&self, other: &SuitDigest<'_>) -> (r: bool)
        ensures
            r == (self@ == other@),
    {
        if self.alg.get() != other.alg.get() || self.bytes.len() != other.bytes.len() {
            assert(self@.bytes.len() != other@.bytes.len() ==> self@ != other@);
            return false;
        }
        let mut i: usize = 0;
        while i < self.bytes.len()
            invariant
                i <= self.bytes@.len(),
                self.bytes@.len() == other.bytes@.len(),
                forall|j: int| 0 <= j < i ==> self.bytes@[j] == other.bytes@[j],
            decreases self.bytes@.len() - i,
        {
            if self.bytes[i] != other.bytes[i] {
                assert(self@.bytes[i as int] != other@.bytes[i as int]);
                return false;
            }
            i = i + 1;
        }
        assert(self@.bytes =~= other@.bytes);
        true
    }
}

/// Whether a digest model can be written: its bytes fit a CBOR length.
pub open spec fn digest_wf(d: DigestView) -> bool {
    d.bytes.len() <= u64::MAX
}

/// A digest on the wire: `[alg, bstr]`.
pub open spec fn ser_digest(d: DigestView) -> Seq<u8> {
    ser_head(MAJOR_ARRAY, 2) + ser_i64(d.alg) + ser_bytes(d.bytes)
}

/// Reads `[alg, bstr]`: a definite array of exactly two items.
#[verifier::opaque]
pub open spec fn parse_digest(s: Seq<u8>) -> Option<(DigestView, int)> {
    match parse_exact(s, MAJOR_ARRAY, 2) {
        Some(n0) => match parse_i64(s.skip(n0)) {
            Some((alg, n1)) => match parse_bytes(s.skip(n0 + n1)) {
                Some((bytes, n2)) => Some((DigestView { alg, bytes }, n0 + n1 + n2)),
                None => None,
            },
            None => None,
        },
        None => None,
    }
}

/// Reading a digest back from its encoding gives the same value and consumes
/// exactly the encoding, whatever bytes follow.
pub proof fn lemma_digest_roundtrip(d: DigestView, rest: Seq<u8>)
    requires
        digest_wf(d),
    ensures
        parse_digest(ser_digest(d) + rest) == Some((d, ser_digest(d).len() as int)),
{
    reveal(parse_digest);
    let h = ser_head(MAJOR_ARRAY, 2);
    let a = ser_i64(d.alg);
    let b = ser_bytes(d.bytes);
    let s = ser_digest(d) + rest;
    assert(s =~= h + (a + (b + rest)));
    lemma_container_roundtrip(MAJOR_ARRAY, 2, a + (b + rest));
    assert(s.skip(h.len() as int) =~= a + (b + rest));
    lemma_i64_roundtrip(d.alg, b + rest);
    assert(s.skip((h.len() + a.len()) as int) =~= b + rest);
    lemma_string_roundtrip(MAJOR_BYTES, d.bytes, rest);
}

/// Appends the digest as `[alg, bstr]`.
pub fn push_digest(out: &mut Vec<u8>, d: &SuitDigest)
    ensures
        final(out)@ == old(out)@ + ser_digest(d@),
        digest_wf(d@),
{
    let ghost start = out@;
    push_head(out, MAJOR_ARRAY, 2);
    push_alg(out, d.alg);
    push_string(out, MAJOR_BYTES, d.bytes);
    assert(out@ =~= start + ser_digest(d@));
}

/// Reads a digest at `pos`, borrowing its bytes from `s`.
pub fn read_digest<'b>(s: &'b [u8], pos: usize) -> (r: Result<(SuitDigest<'b>, usize), DecodeError>)
    requires
        pos <= s@.len(),
    ensures
        match parse_digest(s@.skip(pos as int)) {
            None => r is Err,
            Some((d, n)) => r matches Ok((x, p)) && x@ == d && p == pos + n && pos <= p <= s@.len(),
        },
{
    reveal(parse_digest);
    let ghost t = s@.skip(pos as int);
    let p0 = read_exact(s, pos, MAJOR_ARRAY, 2)?;
    proof {
        lemma_skip_skip(s@, pos as int, p0 - pos);
    }
    let (alg, p1) = read_alg(s, p0)?;
    proof {
        lemma_skip_skip(s@, pos as int, p1 - pos);
    }
    let (bytes, p2) = read_string(s, p1, MAJOR_BYTES)?;
    Ok((SuitDigest { alg, bytes }, p2))
}

// ---- the manifest ----

/// The encrypted-update fields, carried together or not at all: the digest of the
/// encrypted payload plus the reference to the key info needed to decrypt it.
///
/// Bundling them in one type means a manifest cannot hold one without the other.
#[derive(Debug, Clone, Copy, PartialEq, Eq)]
pub struct Encrypted<'b> {
    digest: SuitDigest<'b>,
    key_id: AsciiStr<'b>,
}

/// The model of [`Encrypted`]: the encrypted payload's digest and the key reference.
pub struct EncryptedView {
    pub digest: DigestView,
    pub key_id: Seq<u8>,
}

impl<'b> View for Encrypted<'b> {
    type V = EncryptedView;

    closed spec fn view(&self) -> EncryptedView {
        EncryptedView { digest: self.digest@, key_id: self.key_id@ }
    }
}

impl<'b> Encrypted<'b> {
    /// Creates the encrypted-update pair from the payload digest and key reference.
    pub fn new(digest: SuitDigest<'b>, key_id: AsciiStr<'b>) -> (r: Self)
        ensures
            r@ == (EncryptedView { digest: digest@, key_id: key_id@ }),
    {
        Encrypted { digest, key_id }
    }

    /// The digest of the encrypted payload.
    pub fn digest(&self) -> (r: SuitDigest<'b>)
        ensures
            r@ == self@.digest,
    {
        self.digest
    }

    /// The reference to the key info needed to decrypt the payload.
    pub fn key_id(&self) -> (r: AsciiStr<'b>)
        ensures
            r@ == self@.key_id,
    {
        self.key_id
    }
}

/// The model of a [`Manifest`].
pub struct ManifestView {
    pub profile_version: u8,
    pub sequence: u64,
    pub class_id: Seq<u8>,
    pub payload_digest: DigestView,
    pub target_slot: u8,
    pub version_string: Option<Seq<u8>>,
    pub encrypted: Option<EncryptedView>,
}

/// A SUIT-aligned update manifest (KOFFER local profile).
///
/// A CBOR map binding the payload by digest plus update metadata. Required:
/// `profile_version`, `sequence` (anti-rollback), `class_id` (device-class compatibility),
/// `payload_digest` (the image binding), `target_slot`. Optional: `version_string`,
/// and -- for encrypted updates -- the `encrypted` pair (the encrypted payload's
/// digest plus its key reference). Borrowed from the input.
#[derive(Debug, Clone, Copy, PartialEq, Eq)]
pub struct Manifest<'b> {
    profile_version: u8,
    sequence: u64,
    class_id: AsciiStr<'b>,
    payload_digest: SuitDigest<'b>,
    target_slot: u8,
    version_string: Option<AsciiStr<'b>>,
    encrypted: Option<Encrypted<'b>>,
}

/// The bytes of an optional ASCII string.
pub open spec fn opt_ascii_view(a: Option<AsciiStr>) -> Option<Seq<u8>> {
    match a {
        Some(x) => Some(x@),
        None => None,
    }
}

/// The model of the optional encryption entries.
pub open spec fn opt_encrypted_view(e: Option<Encrypted>) -> Option<EncryptedView> {
    match e {
        Some(x) => Some(x@),
        None => None,
    }
}

impl<'b> View for Manifest<'b> {
    type V = ManifestView;

    closed spec fn view(&self) -> ManifestView {
        ManifestView {
            profile_version: self.profile_version,
            sequence: self.sequence,
            class_id: self.class_id@,
            payload_digest: self.payload_digest@,
            target_slot: self.target_slot,
            version_string: opt_ascii_view(self.version_string),
            encrypted: opt_encrypted_view(self.encrypted),
        }
    }
}

impl<'b> Manifest<'b> {
    /// Creates a manifest with the required fields; the optional fields start absent
    /// (set them with `with_version_string` / `with_encrypted`).
    pub fn new(
        profile_version: u8,
        sequence: u64,
        class_id: AsciiStr<'b>,
        payload_digest: SuitDigest<'b>,
        target_slot: u8,
    ) -> (r: Self)
        ensures
            r@ == (ManifestView {
                profile_version,
                sequence,
                class_id: class_id@,
                payload_digest: payload_digest@,
                target_slot,
                version_string: None,
                encrypted: None,
            }),
    {
        Manifest {
            profile_version,
            sequence,
            class_id,
            payload_digest,
            target_slot,
            version_string: None,
            encrypted: None,
        }
    }

    /// Sets the optional human version/label string.
    pub fn with_version_string(self, version_string: AsciiStr<'b>) -> (r: Self)
        ensures
            r@ == (ManifestView { version_string: Some(version_string@), ..self@ }),
    {
        Manifest { version_string: Some(version_string), ..self }
    }

    /// Sets the encrypted-update fields together: the encrypted payload's digest and
    /// the reference to its key info.
    pub fn with_encrypted(self, digest: SuitDigest<'b>, key_id: AsciiStr<'b>) -> (r: Self)
        ensures
            r@ == (ManifestView {
                encrypted: Some(EncryptedView { digest: digest@, key_id: key_id@ }),
                ..self@
            }),
    {
        Manifest { encrypted: Some(Encrypted::new(digest, key_id)), ..self }
    }

    /// The manifest profile version.
    pub fn profile_version(&self) -> (r: u8)
        ensures
            r == self@.profile_version,
    {
        self.profile_version
    }

    /// The manifest profile version (the same field as `profile_version`).
    pub fn version(&self) -> (r: u8)
        ensures
            r == self@.profile_version,
    {
        self.profile_version
    }

    /// The anti-rollback sequence number.
    pub fn sequence(&self) -> (r: u64)
        ensures
            r == self@.sequence,
    {
        self.sequence
    }

    /// The device-class compatibility identifier.
    pub fn class_id(&self) -> (r: AsciiStr<'b>)
        ensures
            r@ == self@.class_id,
    {
        self.class_id
    }

    /// The payload digest binding.
    pub fn payload_digest(&self) -> (r: SuitDigest<'b>)
        ensures
            r@ == self@.payload_digest,
    {
        self.payload_digest
    }

    /// The install target slot.
    pub fn target_slot(&self) -> (r: u8)
        ensures
            r == self@.target_slot,
    {
        self.target_slot
    }

    /// The optional human version/label string.
    pub fn version_string(&self) -> (r: Option<AsciiStr<'b>>)
        ensures
            opt_ascii_view(r) == self@.version_string,
    {
        self.version_string
    }

    /// The optional encrypted-update fields (digest + key reference), present together.
    pub fn encrypted(&self) -> (r: Option<Encrypted<'b>>)
        ensures
            opt_encrypted_view(r) == self@.encrypted,
    {
        self.encrypted
    }

    /// The optional encrypted-payload digest.
    pub fn encrypted_digest(&self) -> (r: Option<SuitDigest<'b>>)
        ensures
            match self@.encrypted {
                Some(e) => r matches Some(d) && d@ == e.digest,
                None => r is None,
            },
    {
        match self.encrypted {
            Some(e) => Some(e.digest),
            None => None,
        }
    }

    /// The optional key-info reference.
    pub fn key_ref(&self) -> (r: Option<AsciiStr<'b>>)
        ensures
            match self@.encrypted {
                Some(e) => r matches Some(k) && k@ == e.key_id,
                None => r is None,
            },
    {
        match self.encrypted {
            Some(e) => Some(e.key_id),
            None => None,
        }
    }

    /// Whether this manifest binds the given payload digest: whether the supplied
    /// digest -- produced by hashing the actual image -- matches the one the manifest
    /// commits to, in both algorithm and bytes. Signing the small manifest then
    /// authenticates the large image, since the manifest commits to its digest.
    ///
    /// Variable-time comparison is correct here: both digests are public.
    pub fn binds(&self, computed: SuitDigest<'_>) -> (r: bool)
        ensures
            r == (self@.payload_digest == computed@),
    {
        self.payload_digest.same_as(&computed)
    }
}

// ---- the manifest encoding ----

/// Map labels of the manifest fields, in canonical (ascending) order.
pub const LABEL_PROFILE_VERSION: u8 = 1;
pub const LABEL_SEQUENCE: u8 = 2;
pub const LABEL_CLASS_ID: u8 = 3;
pub const LABEL_PAYLOAD_DIGEST: u8 = 4;
pub const LABEL_TARGET_SLOT: u8 = 5;
pub const LABEL_VERSION_STRING: u8 = 6;
pub const LABEL_ENCRYPTED_DIGEST: u8 = 7;
pub const LABEL_KEY_ID: u8 = 8;

/// Whether a manifest model can be written and read back: its text is printable
/// ASCII and every length fits a CBOR head.
pub open spec fn manifest_wf(m: ManifestView) -> bool {
    &&& is_printable(m.class_id) && m.class_id.len() <= u64::MAX
    &&& digest_wf(m.payload_digest)
    &&& m.version_string matches Some(v) ==> is_printable(v) && v.len() <= u64::MAX
    &&& m.encrypted matches Some(e) ==> digest_wf(e.digest) && is_printable(e.key_id)
        && e.key_id.len() <= u64::MAX
}

/// The number of map entries the manifest carries.
pub open spec fn manifest_entries(m: ManifestView) -> u64 {
    (5 + (if m.version_string is Some { 1int } else { 0 }) + (if m.encrypted is Some {
        2int
    } else {
        0
    })) as u64
}

/// The optional entries, in label order.
pub open spec fn ser_optional(m: ManifestView) -> Seq<u8> {
    (match m.version_string {
        Some(v) => ser_uint(LABEL_VERSION_STRING as u64) + ser_text(v),
        None => Seq::empty(),
    }) + (match m.encrypted {
        Some(e) => ser_uint(LABEL_ENCRYPTED_DIGEST as u64) + ser_digest(e.digest) + ser_uint(
            LABEL_KEY_ID as u64,
        ) + ser_text(e.key_id),
        None => Seq::empty(),
    })
}

/// The canonical encoding: a definite map with strictly ascending labels.
pub open spec fn ser_manifest(m: ManifestView) -> Seq<u8> {
    ser_head(MAJOR_MAP, manifest_entries(m)) + ser_uint(LABEL_PROFILE_VERSION as u64) + ser_uint(
        m.profile_version as u64,
    ) + ser_uint(LABEL_SEQUENCE as u64) + ser_uint(m.sequence) + ser_uint(LABEL_CLASS_ID as u64)
        + ser_text(m.class_id) + ser_uint(LABEL_PAYLOAD_DIGEST as u64) + ser_digest(
        m.payload_digest,
    ) + ser_uint(LABEL_TARGET_SLOT as u64) + ser_uint(m.target_slot as u64) + ser_optional(m)
}

/// The fields read so far while walking the manifest map.
pub struct ManifestFields {
    pub profile_version: Option<u8>,
    pub sequence: Option<u64>,
    pub class_id: Option<Seq<u8>>,
    pub payload_digest: Option<DigestView>,
    pub target_slot: Option<u8>,
    pub version_string: Option<Seq<u8>>,
    pub encrypted_digest: Option<DigestView>,
    pub key_id: Option<Seq<u8>>,
}

/// No field read yet.
pub open spec fn no_fields() -> ManifestFields {
    ManifestFields {
        profile_version: None,
        sequence: None,
        class_id: None,
        payload_digest: None,
        target_slot: None,
        version_string: None,
        encrypted_digest: None,
        key_id: None,
    }
}

/// Reads the value of the entry labelled `label` (one of the eight labels).
#[verifier::opaque]
pub open spec fn parse_field(s: Seq<u8>, label: u8, acc: ManifestFields) -> Option<(ManifestFields, int)> {
    if label == LABEL_PROFILE_VERSION {
        match parse_uint(s, 0xff) {
            Some((v, n)) => Some((ManifestFields { profile_version: Some(v as u8), ..acc }, n)),
            None => None,
        }
    } else if label == LABEL_SEQUENCE {
        match parse_uint(s, u64::MAX) {
            Some((v, n)) => Some((ManifestFields { sequence: Some(v), ..acc }, n)),
            None => None,
        }
    } else if label == LABEL_CLASS_ID {
        match parse_ascii(s) {
            Some((v, n)) => Some((ManifestFields { class_id: Some(v), ..acc }, n)),
            None => None,
        }
    } else if label == LABEL_PAYLOAD_DIGEST {
        match parse_digest(s) {
            Some((v, n)) => Some((ManifestFields { payload_digest: Some(v), ..acc }, n)),
            None => None,
        }
    } else if label == LABEL_TARGET_SLOT {
        match parse_uint(s, 0xff) {
            Some((v, n)) => Some((ManifestFields { target_slot: Some(v as u8), ..acc }, n)),
            None => None,
        }
    } else if label == LABEL_VERSION_STRING {
        match parse_ascii(s) {
            Some((v, n)) => Some((ManifestFields { version_string: Some(v), ..acc }, n)),
            None => None,
        }
    } else if label == LABEL_ENCRYPTED_DIGEST {
        match parse_digest(s) {
            Some((v, n)) => Some((ManifestFields { encrypted_digest: Some(v), ..acc }, n)),
            None => None,
        }
    } else {
        match parse_ascii(s) {
            Some((v, n)) => Some((ManifestFields { key_id: Some(v), ..acc }, n)),
            None => None,
        }
    }
}

/// Reads `count` entries whose labels must be strictly ascending after `prev` and
/// known: a repeated, out-of-order or unknown label is rejected, so a manifest has
/// exactly one valid encoding.
#[verifier::opaque]
pub open spec fn parse_entries(s: Seq<u8>, count: nat, prev: u8, acc: ManifestFields) -> Option<
    (ManifestFields, int),
>
    decreases count,
{
    if count == 0 {
        Some((acc, 0))
    } else {
        match parse_uint(s, 0xff) {
            Some((l, n1)) => if l <= prev || l > LABEL_KEY_ID {
                None
            } else {
                match parse_field(s.skip(n1), l as u8, acc) {
                    Some((acc2, n2)) => if n1 + n2 <= s.len() {
                        shift(parse_entries(s.skip(n1 + n2), (count - 1) as nat, l as u8, acc2), n1 + n2)
                    } else {
                        None
                    },
                    None => None,
                }
            },
            None => None,
        }
    }
}

/// The manifest the fields make: every required field present, and the encrypted
/// pair present together or absent together.
pub open spec fn build_manifest(f: ManifestFields) -> Option<ManifestView> {
    match (f.profile_version, f.sequence, f.class_id, f.payload_digest, f.target_slot) {
        (Some(pv), Some(sq), Some(cid), Some(pd), Some(ts)) => {
            let base = ManifestView {
                profile_version: pv,
                sequence: sq,
                class_id: cid,
                payload_digest: pd,
                target_slot: ts,
                version_string: f.version_string,
                encrypted: None,
            };
            match (f.encrypted_digest, f.key_id) {
                (Some(d), Some(k)) => Some(
                    ManifestView { encrypted: Some(EncryptedView { digest: d, key_id: k }), ..base },
                ),
                (None, None) => Some(base),
                _ => None,
            }
        },
        _ => None,
    }
}

/// Reads a manifest: a definite map walked by [`parse_entries`], then checked by
/// [`build_manifest`].
pub open spec fn parse_manifest(s: Seq<u8>) -> Option<(ManifestView, int)> {
    match parse_container(s, MAJOR_MAP) {
        Some((Some(entries), n0)) => match parse_entries(s.skip(n0), entries as nat, 0, no_fields()) {
            Some((f, n1)) => match build_manifest(f) {
                Some(m) => Some((m, n0 + n1)),
                None => None,
            },
            None => None,
        },
        _ => None,
    }
}


proof fn lemma_field_uint(label: u8, v: u64, max: u64, r: Seq<u8>, acc: ManifestFields)
    requires
        label == LABEL_PROFILE_VERSION || label == LABEL_SEQUENCE || label == LABEL_TARGET_SLOT,
        max == (if label == LABEL_SEQUENCE { u64::MAX } else { 0xff }),
        v <= max,
    ensures
        parse_field(ser_uint(v) + r, label, acc) == Some((
            if label == LABEL_PROFILE_VERSION {
                ManifestFields { profile_version: Some(v as u8), ..acc }
            } else if label == LABEL_SEQUENCE {
                ManifestFields { sequence: Some(v), ..acc }
            } else {
                ManifestFields { target_slot: Some(v as u8), ..acc }
            },
            ser_uint(v).len() as int,
        )),
{
    reveal(parse_field);
    lemma_uint_roundtrip(v, max, r);
}

proof fn lemma_field_text(label: u8, v: Seq<u8>, r: Seq<u8>, acc: ManifestFields)
    requires
        label == LABEL_CLASS_ID || label == LABEL_VERSION_STRING || label == LABEL_KEY_ID,
        is_printable(v),
        v.len() <= u64::MAX,
    ensures
        parse_field(ser_text(v) + r, label, acc) == Some((
            if label == LABEL_CLASS_ID {
                ManifestFields { class_id: Some(v), ..acc }
            } else if label == LABEL_VERSION_STRING {
                ManifestFields { version_string: Some(v), ..acc }
            } else {
                ManifestFields { key_id: Some(v), ..acc }
            },
            ser_text(v).len() as int,
        )),
{
    reveal(parse_field);
    lemma_ascii_roundtrip(v, r);
}

proof fn lemma_field_digest(label: u8, d: DigestView, r: Seq<u8>, acc: ManifestFields)
    requires
        label == LABEL_PAYLOAD_DIGEST || label == LABEL_ENCRYPTED_DIGEST,
        digest_wf(d),
    ensures
        parse_field(ser_digest(d) + r, label, acc) == Some((
            if label == LABEL_PAYLOAD_DIGEST {
                ManifestFields { payload_digest: Some(d), ..acc }
            } else {
                ManifestFields { encrypted_digest: Some(d), ..acc }
            },
            ser_digest(d).len() as int,
        )),
{
    reveal(parse_field);
    lemma_digest_roundtrip(d, r);
}

proof fn lemma_entries_done(s: Seq<u8>, prev: u8, acc: ManifestFields)
    ensures
        parse_entries(s, 0, prev, acc) == Some((acc, 0int)),
{
    reveal(parse_entries);
}

proof fn lemma_label_len(l: u8)
    requires
        l < 24,
    ensures
        ser_uint(l as u64).len() == 1,
{
    crate::wire::cbor::lemma_head_roundtrip(0, l as u64, Seq::empty());
}

/// One entry `label, value` read from the front of the map's remaining bytes.
proof fn lemma_entry_step(
    l: u8,
    f: Seq<u8>,
    r: Seq<u8>,
    count: nat,
    prev: u8,
    acc: ManifestFields,
    acc2: ManifestFields,
)
    requires
        count > 0,
        prev < l <= LABEL_KEY_ID,
        parse_field(f + r, l, acc) == Some((acc2, f.len() as int)),
    ensures
        parse_entries(ser_uint(l as u64) + f + r, count, prev, acc) == shift(
            parse_entries(r, (count - 1) as nat, l, acc2),
            1 + f.len() as int,
        ),
{
    reveal(parse_entries);
    let h = ser_uint(l as u64);
    lemma_label_len(l);
    let s = h + f + r;
    assert(s =~= h + (f + r));
    lemma_uint_roundtrip(l as u64, 0xff, f + r);
    assert(s.skip(1) =~= f + r);
    assert(s.skip(1 + f.len() as int) =~= r);
}

/// A map entry: the integer label, then the encoded value.
pub open spec fn entry(label: u8, value: Seq<u8>) -> Seq<u8> {
    ser_uint(label as u64) + value
}

/// The fields read from the five required entries.
pub open spec fn required_fields(m: ManifestView) -> ManifestFields {
    ManifestFields {
        profile_version: Some(m.profile_version),
        sequence: Some(m.sequence),
        class_id: Some(m.class_id),
        payload_digest: Some(m.payload_digest),
        target_slot: Some(m.target_slot),
        version_string: None,
        encrypted_digest: None,
        key_id: None,
    }
}

/// The five required entries, in label order.
pub open spec fn ser_required(m: ManifestView) -> Seq<u8> {
    entry(1, ser_uint(m.profile_version as u64)) + (entry(2, ser_uint(m.sequence)) + (entry(
        3,
        ser_text(m.class_id),
    ) + (entry(4, ser_digest(m.payload_digest)) + entry(5, ser_uint(m.target_slot as u64)))))
}

proof fn lemma_required_entries(m: ManifestView, r5: Seq<u8>, count: nat)
    requires
        manifest_wf(m),
        count >= 5,
    ensures
        parse_entries(ser_required(m) + r5, count, 0, no_fields()) == shift(
            parse_entries(r5, (count - 5) as nat, 5, required_fields(m)),
            ser_required(m).len() as int,
        ),
{
    let f1 = ser_uint(m.profile_version as u64);
    let f2 = ser_uint(m.sequence);
    let f3 = ser_text(m.class_id);
    let f4 = ser_digest(m.payload_digest);
    let f5 = ser_uint(m.target_slot as u64);
    let r4 = entry(5, f5) + r5;
    let r3 = entry(4, f4) + r4;
    let r2 = entry(3, f3) + r3;
    let r1 = entry(2, f2) + r2;
    let a0 = no_fields();
    let a1 = ManifestFields { profile_version: Some(m.profile_version), ..a0 };
    let a2 = ManifestFields { sequence: Some(m.sequence), ..a1 };
    let a3 = ManifestFields { class_id: Some(m.class_id), ..a2 };
    let a4 = ManifestFields { payload_digest: Some(m.payload_digest), ..a3 };
    let a5 = ManifestFields { target_slot: Some(m.target_slot), ..a4 };
    assert(a5 == required_fields(m));
    assert(ser_required(m) + r5 =~= ser_uint(1) + f1 + r1);
    lemma_field_uint(1, m.profile_version as u64, 0xff, r1, a0);
    lemma_entry_step(1, f1, r1, count, 0, a0, a1);
    assert(r1 =~= ser_uint(2) + f2 + r2);
    lemma_field_uint(2, m.sequence, u64::MAX, r2, a1);
    lemma_entry_step(2, f2, r2, (count - 1) as nat, 1, a1, a2);
    assert(r2 =~= ser_uint(3) + f3 + r3);
    lemma_field_text(3, m.class_id, r3, a2);
    lemma_entry_step(3, f3, r3, (count - 2) as nat, 2, a2, a3);
    assert(r3 =~= ser_uint(4) + f4 + r4);
    lemma_field_digest(4, m.payload_digest, r4, a3);
    lemma_entry_step(4, f4, r4, (count - 3) as nat, 3, a3, a4);
    assert(r4 =~= ser_uint(5) + f5 + r5);
    lemma_field_uint(5, m.target_slot as u64, 0xff, r5, a4);
    lemma_entry_step(5, f5, r5, (count - 4) as nat, 4, a4, a5);
    lemma_label_len(1);
    lemma_label_len(2);
    lemma_label_len(3);
    lemma_label_len(4);
    lemma_label_len(5);
}

/// The fields read once the optional entries are read too.
pub open spec fn all_fields(m: ManifestView) -> ManifestFields {
    let r = required_fields(m);
    let v = ManifestFields { version_string: m.version_string, ..r };
    match m.encrypted {
        Some(e) => ManifestFields { encrypted_digest: Some(e.digest), key_id: Some(e.key_id), ..v },
        None => v,
    }
}

proof fn lemma_optional_entries(m: ManifestView, rest: Seq<u8>)
    requires
        manifest_wf(m),
    ensures
        parse_entries(ser_optional(m) + rest, (manifest_entries(m) - 5) as nat, 5, required_fields(m))
            == Some((all_fields(m), ser_optional(m).len() as int)),
{
    let opt = ser_optional(m);
    let a5 = required_fields(m);
    lemma_entries_done(rest, 6, ManifestFields { version_string: m.version_string, ..a5 });
    lemma_entries_done(rest, 8, all_fields(m));
    lemma_label_len(6);
    lemma_label_len(7);
    lemma_label_len(8);
    match (m.version_string, m.encrypted) {
        (None, None) => {
            reveal(parse_entries);
            assert(opt =~= Seq::<u8>::empty());
            assert(opt + rest =~= rest);
            assert(all_fields(m) == a5);
        },
        (Some(v), None) => {
            let f6 = ser_text(v);
            let a6 = ManifestFields { version_string: Some(v), ..a5 };
            lemma_field_text(6, v, rest, a5);
            lemma_entry_step(6, f6, rest, 1, 5, a5, a6);
            assert(opt + rest =~= ser_uint(6) + f6 + rest);
            assert(all_fields(m) == a6);
        },
        (None, Some(e)) => {
            let f7 = ser_digest(e.digest);
            let f8 = ser_text(e.key_id);
            let a6 = ManifestFields { version_string: None, ..a5 };
            let a7 = ManifestFields { encrypted_digest: Some(e.digest), ..a6 };
            let a8 = ManifestFields { key_id: Some(e.key_id), ..a7 };
            let r7 = ser_uint(8) + f8 + rest;
            assert(opt + rest =~= ser_uint(7) + f7 + r7);
            lemma_field_digest(7, e.digest, r7, a5);
            lemma_entry_step(7, f7, r7, 2, 5, a5, a7);
            lemma_field_text(8, e.key_id, rest, a7);
            lemma_entry_step(8, f8, rest, 1, 7, a7, a8);
            assert(all_fields(m) == a8);
        },
        (Some(v), Some(e)) => {
            let f6 = ser_text(v);
            let f7 = ser_digest(e.digest);
            let f8 = ser_text(e.key_id);
            let a6 = ManifestFields { version_string: Some(v), ..a5 };
            let a7 = ManifestFields { encrypted_digest: Some(e.digest), ..a6 };
            let a8 = ManifestFields { key_id: Some(e.key_id), ..a7 };
            let r7 = ser_uint(8) + f8 + rest;
            let r6 = ser_uint(7) + f7 + r7;
            assert(opt + rest =~= ser_uint(6) + f6 + r6);
            lemma_field_text(6, v, r6, a5);
            lemma_entry_step(6, f6, r6, 3, 5, a5, a6);
            lemma_field_digest(7, e.digest, r7, a6);
            lemma_entry_step(7, f7, r7, 2, 6, a6, a7);
            lemma_field_text(8, e.key_id, rest, a7);
            lemma_entry_step(8, f8, rest, 1, 7, a7, a8);
            assert(all_fields(m) == a8);
        },
    }
}

proof fn lemma_ser_manifest_split(m: ManifestView)
    ensures
        ser_manifest(m) == ser_head(MAJOR_MAP, manifest_entries(m)) + (ser_required(m) + ser_optional(
            m,
        )),
{
    assert(ser_manifest(m) =~= ser_head(MAJOR_MAP, manifest_entries(m)) + (ser_required(m)
        + ser_optional(m)));
}

/// Encoding a well-formed manifest and reading it back gives the same manifest,
/// whatever bytes follow it.
pub proof fn lemma_manifest_roundtrip(m: ManifestView, rest: Seq<u8>)
    requires
        manifest_wf(m),
    ensures
        parse_manifest(ser_manifest(m) + rest) == Some((m, ser_manifest(m).len() as int)),
{
    let entries = manifest_entries(m);
    let hd = ser_head(MAJOR_MAP, entries);
    let body = ser_required(m) + (ser_optional(m) + rest);
    let s = ser_manifest(m) + rest;
    lemma_ser_manifest_split(m);
    assert(s =~= hd + body);
    lemma_container_roundtrip(MAJOR_MAP, entries, body);
    assert(s.skip(hd.len() as int) =~= body);
    lemma_required_entries(m, ser_optional(m) + rest, entries as nat);
    lemma_optional_entries(m, rest);
    assert(build_manifest(all_fields(m)) == Some(m));
}


/// The fields read so far while decoding, borrowed from the input.
struct Fields<'b> {
    profile_version: Option<u8>,
    sequence: Option<u64>,
    class_id: Option<AsciiStr<'b>>,
    payload_digest: Option<SuitDigest<'b>>,
    target_slot: Option<u8>,
    version_string: Option<AsciiStr<'b>>,
    encrypted_digest: Option<SuitDigest<'b>>,
    key_id: Option<AsciiStr<'b>>,
}

/// The model of an optional digest.
pub open spec fn opt_digest_view(d: Option<SuitDigest>) -> Option<DigestView> {
    match d {
        Some(x) => Some(x@),
        None => None,
    }
}

impl<'b> View for Fields<'b> {
    type V = ManifestFields;

    closed spec fn view(&self) -> ManifestFields {
        ManifestFields {
            profile_version: self.profile_version,
            sequence: self.sequence,
            class_id: opt_ascii_view(self.class_id),
            payload_digest: opt_digest_view(self.payload_digest),
            target_slot: self.target_slot,
            version_string: opt_ascii_view(self.version_string),
            encrypted_digest: opt_digest_view(self.encrypted_digest),
            key_id: opt_ascii_view(self.key_id),
        }
    }
}

/// Reads the value of the entry labelled `label` at `pos` into `acc`.
fn read_field<'b>(s: &'b [u8], pos: usize, label: u8, acc: &mut Fields<'b>) -> (r: Result<usize, DecodeError>)
    requires
        pos <= s@.len(),
        1 <= label <= LABEL_KEY_ID,
    ensures
        match parse_field(s@.skip(pos as int), label, old(acc)@) {
            None => r is Err,
            Some((f, n)) => r matches Ok(p) && final(acc)@ == f && p == pos + n && pos <= p <= s@.len(),
        },
{
    reveal(parse_field);
    if label == LABEL_PROFILE_VERSION {
        let (v, p) = read_u8(s, pos)?;
        acc.profile_version = Some(v);
        Ok(p)
    } else if label == LABEL_SEQUENCE {
        let (v, p) = read_uint(s, pos, u64::MAX)?;
        acc.sequence = Some(v);
        Ok(p)
    } else if label == LABEL_CLASS_ID {
        let (v, p) = read_ascii(s, pos)?;
        acc.class_id = Some(v);
        Ok(p)
    } else if label == LABEL_PAYLOAD_DIGEST {
        let (v, p) = read_digest(s, pos)?;
        acc.payload_digest = Some(v);
        Ok(p)
    } else if label == LABEL_TARGET_SLOT {
        let (v, p) = read_u8(s, pos)?;
        acc.target_slot = Some(v);
        Ok(p)
    } else if label == LABEL_VERSION_STRING {
        let (v, p) = read_ascii(s, pos)?;
        acc.version_string = Some(v);
        Ok(p)
    } else if label == LABEL_ENCRYPTED_DIGEST {
        let (v, p) = read_digest(s, pos)?;
        acc.encrypted_digest = Some(v);
        Ok(p)
    } else {
        let (v, p) = read_ascii(s, pos)?;
        acc.key_id = Some(v);
        Ok(p)
    }
}

impl<'b> Manifest<'b> {
    /// Appends the canonical encoding of the manifest: a definite map with strictly
    /// ascending labels, so the signed bytes are stable.
    pub fn encode_into(&self, out: &mut Vec<u8>)
        ensures
            final(out)@ == old(out)@ + ser_manifest(self@),
            manifest_wf(self@),
    {
        let ghost start = out@;
        let entries: u64 = 5 + (if self.version_string.is_some() { 1 } else { 0 }) + (
        if self.encrypted.is_some() {
            2
        } else {
            0
        });
        push_head(out, MAJOR_MAP, entries);
        let ghost g0 = out@;
        self.push_required(out);
        let ghost g1 = out@;
        self.push_optional(out);
        proof {
            lemma_ser_manifest_split(self@);
            assert(out@ =~= start + (ser_head(MAJOR_MAP, manifest_entries(self@)) + (ser_required(
                self@,
            ) + ser_optional(self@))));
        }
    }

    /// Appends the five required entries, in label order.
    fn push_required(&self, out: &mut Vec<u8>)
        ensures
            final(out)@ == old(out)@ + ser_required(self@),
            is_printable(self@.class_id) && self@.class_id.len() <= u64::MAX,
            digest_wf(self@.payload_digest),
    {
        let ghost start = out@;
        push_uint(out, LABEL_PROFILE_VERSION as u64);
        push_uint(out, self.profile_version as u64);
        let ghost g1 = out@;
        push_uint(out, LABEL_SEQUENCE as u64);
        push_uint(out, self.sequence);
        let ghost g2 = out@;
        push_uint(out, LABEL_CLASS_ID as u64);
        push_ascii(out, &self.class_id);
        let ghost g3 = out@;
        push_uint(out, LABEL_PAYLOAD_DIGEST as u64);
        push_digest(out, &self.payload_digest);
        let ghost g4 = out@;
        push_uint(out, LABEL_TARGET_SLOT as u64);
        push_uint(out, self.target_slot as u64);
        proof {
            let m = self@;
            let e1 = entry(1, ser_uint(m.profile_version as u64));
            let e2 = entry(2, ser_uint(m.sequence));
            let e3 = entry(3, ser_text(m.class_id));
            let e4 = entry(4, ser_digest(m.payload_digest));
            let e5 = entry(5, ser_uint(m.target_slot as u64));
            assert(g1 =~= start + e1);
            assert(g2 =~= g1 + e2);
            assert(g3 =~= g2 + e3);
            assert(g4 =~= g3 + e4);
            assert(out@ =~= g4 + e5);
            assert(out@ =~= start + (e1 + (e2 + (e3 + (e4 + e5)))));
        }
    }

    /// Appends the optional entries, in label order.
    fn push_optional(&self, out: &mut Vec<u8>)
        ensures
            final(out)@ == old(out)@ + ser_optional(self@),
            self@.version_string matches Some(v) ==> is_printable(v) && v.len() <= u64::MAX,
            self@.encrypted matches Some(e) ==> digest_wf(e.digest) && is_printable(e.key_id)
                && e.key_id.len() <= u64::MAX,
    {
        let ghost start = out@;
        if let Some(v) = &self.version_string {
            push_uint(out, LABEL_VERSION_STRING as u64);
            push_ascii(out, v);
        }
        let ghost mid = out@;
        if let Some(e) = &self.encrypted {
            push_uint(out, LABEL_ENCRYPTED_DIGEST as u64);
            push_digest(out, &e.digest);
            push_uint(out, LABEL_KEY_ID as u64);
            push_ascii(out, &e.key_id);
        }
        proof {
            let m = self@;
            let vs_part = match m.version_string {
                Some(v) => ser_uint(LABEL_VERSION_STRING as u64) + ser_text(v),
                None => Seq::<u8>::empty(),
            };
            let enc_part = match m.encrypted {
                Some(e) => ser_uint(LABEL_ENCRYPTED_DIGEST as u64) + ser_digest(e.digest) + ser_uint(
                    LABEL_KEY_ID as u64,
                ) + ser_text(e.key_id),
                None => Seq::<u8>::empty(),
            };
            assert(mid =~= start + vs_part);
            assert(out@ =~= mid + enc_part);
            assert(ser_optional(m) =~= vs_part + enc_part);
        }
    }

    /// The canonical encoding of the manifest. Reading it back gives this manifest.
    pub fn encode(&self) -> (r: Vec<u8>)
        ensures
            r@ == ser_manifest(self@),
            parse_manifest(r@) == Some((self@, r@.len() as int)),
    {
        let mut out = Vec::new();
        self.encode_into(&mut out);
        proof {
            assert(out@ =~= ser_manifest(self@));
            lemma_manifest_roundtrip(self@, Seq::empty());
            assert(ser_manifest(self@) + Seq::<u8>::empty() =~= ser_manifest(self@));
        }
        out
    }

    /// Reads a manifest at `pos`, borrowing its text and digests from `s`.
    pub fn decode_from(s: &'b [u8], pos: usize) -> (r: Result<(Manifest<'b>, usize), DecodeError>)
        requires
            pos <= s@.len(),
        ensures
            match parse_manifest(s@.skip(pos as int)) {
                None => r is Err,
                Some((m, n)) => r matches Ok((x, p)) && x@ == m && p == pos + n && pos <= p <= s@.len(),
            },
    {
        let ghost t = s@.skip(pos as int);
        let (len, p0) = read_container(s, pos, MAJOR_MAP)?;
        let entries = match len {
            Some(e) => e,
            None => return Err(DecodeError),
        };
        proof {
            lemma_skip_skip(s@, pos as int, p0 - pos);
        }
        let mut f = Fields {
            profile_version: None,
            sequence: None,
            class_id: None,
            payload_digest: None,
            target_slot: None,
            version_string: None,
            encrypted_digest: None,
            key_id: None,
        };
        let mut prev: u8 = 0;
        let mut p = p0;
        let mut i: u64 = 0;
        assert(f@ == no_fields());
        while i < entries
            invariant
                pos <= p0 <= p <= s@.len(),
                i <= entries,
                parse_container(s@.skip(pos as int), MAJOR_MAP) == Some((Some(entries), p0 - pos)),
                s@.skip(pos as int).skip(p0 - pos) == s@.skip(p0 as int),
                prev <= LABEL_KEY_ID,
                parse_entries(s@.skip(p0 as int), entries as nat, 0, no_fields()) == shift(
                    parse_entries(s@.skip(p as int), (entries - i) as nat, prev, f@),
                    p - p0,
                ),
            decreases entries - i,
        {
            let ghost old_f = f@;
            let ghost sp = s@.skip(p as int);
            proof {
                reveal(parse_entries);
            }
            let (label, p1) = read_u8(s, p)?;
            if label <= prev || label > LABEL_KEY_ID {
                return Err(DecodeError);
            }
            proof {
                lemma_skip_skip(s@, p as int, p1 - p);
            }
            let p2 = read_field(s, p1, label, &mut f)?;
            proof {
                lemma_skip_skip(s@, p as int, p2 - p);
            }
            prev = label;
            p = p2;
            i = i + 1;
        }
        proof {
            lemma_entries_done(s@.skip(p as int), prev, f@);
        }
        let profile_version = match f.profile_version {
            Some(v) => v,
            None => return Err(DecodeError),
        };
        let sequence = match f.sequence {
            Some(v) => v,
            None => return Err(DecodeError),
        };
        let class_id = match f.class_id {
            Some(v) => v,
            None => return Err(DecodeError),
        };
        let payload_digest = match f.payload_digest {
            Some(v) => v,
            None => return Err(DecodeError),
        };
        let target_slot = match f.target_slot {
            Some(v) => v,
            None => return Err(DecodeError),
        };
        let encrypted = match (f.encrypted_digest, f.key_id) {
            (Some(digest), Some(key_id)) => Some(Encrypted::new(digest, key_id)),
            (None, None) => None,
            _ => return Err(DecodeError),
        };
        let m = Manifest {
            profile_version,
            sequence,
            class_id,
            payload_digest,
            target_slot,
            version_string: f.version_string,
            encrypted,
        };
        assert(build_manifest(f@) == Some(m@));
        Ok((m, p))
    }

    /// Reads a manifest from the front of `s` (trailing bytes are ignored).
    pub fn decode(s: &'b [u8]) -> (r: Result<Manifest<'b>, DecodeError>)
        ensures
            match parse_manifest(s@) {
                None => r is Err,
                Some((m, _)) => r matches Ok(x) && x@ == m,
            },
    {
        assert(s@.skip(0) =~= s@);
        let (m, _) = Manifest::decode_from(s, 0)?;
        Ok(m)
    }
}

} // verus!
