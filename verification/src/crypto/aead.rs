//! Authenticated encryption (AEAD) value types and the AES-256-GCM and
//! ChaCha20-Poly1305 backends.
//!
//! Authenticated encryption gives confidentiality and tamper-detection together:
//! `unseal` decrypts only if the ciphertext and the associated data are exactly what
//! `seal` produced, and otherwise fails without releasing any plaintext. The API works
//! in place on a caller buffer and returns the authentication tag separately. The
//! nonce is supplied by the caller and must be unique per key.
use vstd::prelude::*;
use crate::crypto::bytes::{Bytes, BytesError};
use crate::crypto::error::AeadError;
use aes_gcm::aead::AeadInOut;

verus! {

/// AES-256 and ChaCha20 keys are 32 bytes.
pub const KEY_LEN: usize = 32;
/// Both backends use a 96-bit nonce.
pub const NONCE_LEN: usize = 12;
/// Both backends use a 128-bit tag.
pub const TAG_LEN: usize = 16;

/// A symmetric AEAD key, as raw bytes: 32 bytes for both backends. Being secret, it
/// has no `Debug` (its bytes are never printed) and can be wiped with `zeroize`.
pub struct Key(Bytes<KEY_LEN>);

impl View for Key {
    type V = Seq<u8>;

    closed spec fn view(&self) -> Seq<u8> {
        self.0@
    }
}

impl Key {
    /// Returns the value's bytes.
    pub fn as_slice(&self) -> (r: &[u8])
        ensures
            r@ == self@,
            r@.len() <= KEY_LEN,
    {
        self.0.as_slice()
    }

    /// Overwrites the secret bytes with zeros; the length is unchanged.
    pub fn zeroize(&mut self)
        ensures
            final(self)@ == Seq::new(old(self)@.len(), |i: int| 0u8),
    {
        self.0.zeroize();
    }
}

impl Clone for Key {
    fn clone(&self) -> (r: Self)
        ensures
            r@ == self@,
    {
        Key(self.0.clone())
    }
}

impl vstd::std_specs::cmp::PartialEqSpecImpl for Key {
    open spec fn obeys_eq_spec() -> bool {
        true
    }

    open spec fn eq_spec(&self, other: &Self) -> bool {
        self@ == other@
    }
}

impl PartialEq for Key {
    fn eq(&self, other: &Self) -> (r: bool) {
        self.0.ct_eq(&other.0)
    }
}

impl Eq for Key {
}

impl<'a> vstd::std_specs::convert::TryFromSpecImpl<&'a [u8]> for Key {
    open spec fn obeys_try_from_spec() -> bool {
        false
    }

    open spec fn try_from_spec(bytes: &'a [u8]) -> Result<Self, BytesError> {
        Err(BytesError::TooLong { len: 0, max: 0 })
    }
}

impl<'a> TryFrom<&'a [u8]> for Key {
    type Error = BytesError;

    /// Copies `bytes`, or `TooLong` if there are more than the capacity.
    fn try_from(bytes: &'a [u8]) -> (r: Result<Self, BytesError>)
        ensures
            bytes@.len() <= KEY_LEN ==> (r matches Ok(v) && v@ == bytes@),
            bytes@.len() > KEY_LEN ==> r == Err::<Self, BytesError>(
                BytesError::TooLong { len: bytes@.len() as usize, max: KEY_LEN },
            ),
    {
        match Bytes::<KEY_LEN>::from_slice(bytes) {
            Ok(b) => Ok(Key(b)),
            Err(e) => Err(e),
        }
    }
}

/// An AEAD nonce ("number used once"), as raw bytes: 12 bytes for both backends.
#[derive(Debug)]
pub struct Nonce(Bytes<NONCE_LEN>);

impl View for Nonce {
    type V = Seq<u8>;

    closed spec fn view(&self) -> Seq<u8> {
        self.0@
    }
}

impl Nonce {
    /// Returns the value's bytes.
    pub fn as_slice(&self) -> (r: &[u8])
        ensures
            r@ == self@,
            r@.len() <= NONCE_LEN,
    {
        self.0.as_slice()
    }
}

impl Clone for Nonce {
    fn clone(&self) -> (r: Self)
        ensures
            r@ == self@,
    {
        Nonce(self.0.clone())
    }
}

impl vstd::std_specs::cmp::PartialEqSpecImpl for Nonce {
    open spec fn obeys_eq_spec() -> bool {
        true
    }

    open spec fn eq_spec(&self, other: &Self) -> bool {
        self@ == other@
    }
}

impl PartialEq for Nonce {
    fn eq(&self, other: &Self) -> (r: bool) {
        self.0.ct_eq(&other.0)
    }
}

impl Eq for Nonce {
}

impl<'a> vstd::std_specs::convert::TryFromSpecImpl<&'a [u8]> for Nonce {
    open spec fn obeys_try_from_spec() -> bool {
        false
    }

    open spec fn try_from_spec(bytes: &'a [u8]) -> Result<Self, BytesError> {
        Err(BytesError::TooLong { len: 0, max: 0 })
    }
}

impl<'a> TryFrom<&'a [u8]> for Nonce {
    type Error = BytesError;

    /// Copies `bytes`, or `TooLong` if there are more than the capacity.
    fn try_from(bytes: &'a [u8]) -> (r: Result<Self, BytesError>)
        ensures
            bytes@.len() <= NONCE_LEN ==> (r matches Ok(v) && v@ == bytes@),
            bytes@.len() > NONCE_LEN ==> r == Err::<Self, BytesError>(
                BytesError::TooLong { len: bytes@.len() as usize, max: NONCE_LEN },
            ),
    {
        match Bytes::<NONCE_LEN>::from_slice(bytes) {
            Ok(b) => Ok(Nonce(b)),
            Err(e) => Err(e),
        }
    }
}

/// An AEAD authentication tag, as raw bytes: 16 bytes for both backends.
#[derive(Debug)]
pub struct Tag(Bytes<TAG_LEN>);

impl View for Tag {
    type V = Seq<u8>;

    closed spec fn view(&self) -> Seq<u8> {
        self.0@
    }
}

impl Tag {
    /// Returns the value's bytes.
    pub fn as_slice(&self) -> (r: &[u8])
        ensures
            r@ == self@,
            r@.len() <= TAG_LEN,
    {
        self.0.as_slice()
    }
}

impl Clone for Tag {
    fn clone(&self) -> (r: Self)
        ensures
            r@ == self@,
    {
        Tag(self.0.clone())
    }
}

impl vstd::std_specs::cmp::PartialEqSpecImpl for Tag {
    open spec fn obeys_eq_spec() -> bool {
        true
    }

    open spec fn eq_spec(&self, other: &Self) -> bool {
        self@ == other@
    }
}

impl PartialEq for Tag {
    fn eq(&self, other: &Self) -> (r: bool) {
        self.0.ct_eq(&other.0)
    }
}

impl Eq for Tag {
}

impl<'a> vstd::std_specs::convert::TryFromSpecImpl<&'a [u8]> for Tag {
    open spec fn obeys_try_from_spec() -> bool {
        false
    }

    open spec fn try_from_spec(bytes: &'a [u8]) -> Result<Self, BytesError> {
        Err(BytesError::TooLong { len: 0, max: 0 })
    }
}

impl<'a> TryFrom<&'a [u8]> for Tag {
    type Error = BytesError;

    /// Copies `bytes`, or `TooLong` if there are more than the capacity.
    fn try_from(bytes: &'a [u8]) -> (r: Result<Self, BytesError>)
        ensures
            bytes@.len() <= TAG_LEN ==> (r matches Ok(v) && v@ == bytes@),
            bytes@.len() > TAG_LEN ==> r == Err::<Self, BytesError>(
                BytesError::TooLong { len: bytes@.len() as usize, max: TAG_LEN },
            ),
    {
        match Bytes::<TAG_LEN>::from_slice(bytes) {
            Ok(b) => Ok(Tag(b)),
            Err(e) => Err(e),
        }
    }
}

/// The bytes of `s`, which holds exactly 12, as an array.
pub fn to_array_12(s: &[u8]) -> (r: [u8; 12])
    requires
        s@.len() == 12,
    ensures
        r@ == s@,
{
    let mut a = [0u8; 12];
    let mut i: usize = 0;
    while i < 12
        invariant
            s@.len() == 12,
            i <= 12,
            forall|j: int| 0 <= j < i ==> a@[j] == s@[j],
        decreases 12 - i,
    {
        a[i] = s[i];
        i = i + 1;
    }
    assert(a@ =~= s@);
    a
}

/// The bytes of `s`, which holds exactly 16, as an array.
pub fn to_array_16(s: &[u8]) -> (r: [u8; 16])
    requires
        s@.len() == 16,
    ensures
        r@ == s@,
{
    let mut a = [0u8; 16];
    let mut i: usize = 0;
    while i < 16
        invariant
            s@.len() == 16,
            i <= 16,
            forall|j: int| 0 <= j < i ==> a@[j] == s@[j],
        decreases 16 - i,
    {
        a[i] = s[i];
        i = i + 1;
    }
    assert(a@ =~= s@);
    a
}

/// The bytes of `s`, which holds exactly 32, as an array.
pub fn to_array_32(s: &[u8]) -> (r: [u8; 32])
    requires
        s@.len() == 32,
    ensures
        r@ == s@,
{
    let mut a = [0u8; 32];
    let mut i: usize = 0;
    while i < 32
        invariant
            s@.len() == 32,
            i <= 32,
            forall|j: int| 0 <= j < i ==> a@[j] == s@[j],
        decreases 32 - i,
    {
        a[i] = s[i];
        i = i + 1;
    }
    assert(a@ =~= s@);
    a
}

/// `outcome`, if it is an encryption to `ciphertext`, carries `tag`: one ciphertext
/// admits only one tag.
pub open spec fn tag_is_unique(outcome: Option<(Seq<u8>, Seq<u8>)>, ciphertext: Seq<u8>, tag: Seq<u8>) -> bool {
    match outcome {
        Some((c, t)) => c == ciphertext ==> t == tag,
        None => true,
    }
}

/// An authenticated-encryption backend operating in place on a caller buffer.
pub trait Aead {
    /// What the cipher gives for a plaintext: the ciphertext and the tag, or `None`
    /// where the inputs exceed the cipher's length limits.
    spec fn sealed(&self, key: Seq<u8>, nonce: Seq<u8>, aad: Seq<u8>, plaintext: Seq<u8>) -> Option<
        (Seq<u8>, Seq<u8>),
    >;

    /// Encrypts `buffer` in place (plaintext to ciphertext) and returns the
    /// authentication tag over the ciphertext and `aad`.
    fn seal(&self, key: &Key, nonce: &Nonce, aad: &[u8], buffer: &mut [u8]) -> (r: Result<
        Tag,
        AeadError,
    >)
        ensures
            key@.len() != KEY_LEN ==> r == Err::<Tag, AeadError>(AeadError::MalformedKey)
                && final(buffer)@ == old(buffer)@,
            key@.len() == KEY_LEN && nonce@.len() != NONCE_LEN ==> r == Err::<Tag, AeadError>(
                AeadError::MalformedNonce,
            ) && final(buffer)@ == old(buffer)@,
            key@.len() == KEY_LEN && nonce@.len() == NONCE_LEN ==> match self.sealed(
                key@,
                nonce@,
                aad@,
                old(buffer)@,
            ) {
                Some((ct, tag)) => r matches Ok(t) && t@ == tag && final(buffer)@ == ct,
                None => r == Err::<Tag, AeadError>(AeadError::Internal) && final(buffer)@ == old(
                    buffer,
                )@,
            },
            r matches Ok(t) ==> t@.len() == TAG_LEN,
            r is Ok ==> forall|p: Seq<u8>|
                tag_is_unique(#[trigger] self.sealed(key@, nonce@, aad@, p), final(buffer)@, r->Ok_0@),
    ;

    /// Verifies `tag` over `buffer` and `aad`, then decrypts `buffer` in place.
    ///
    /// Succeeds exactly when some plaintext seals to this ciphertext and tag, and then
    /// leaves that plaintext in the buffer; otherwise returns
    /// `Err(AeadError::UnsealFailed)` and leaves the buffer untouched.
    fn unseal(&self, key: &Key, nonce: &Nonce, aad: &[u8], buffer: &mut [u8], tag: &Tag) -> (r:
        Result<(), AeadError>)
        ensures
            key@.len() != KEY_LEN ==> r == Err::<(), AeadError>(AeadError::MalformedKey)
                && final(buffer)@ == old(buffer)@,
            key@.len() == KEY_LEN && nonce@.len() != NONCE_LEN ==> r == Err::<(), AeadError>(
                AeadError::MalformedNonce,
            ) && final(buffer)@ == old(buffer)@,
            key@.len() == KEY_LEN && nonce@.len() == NONCE_LEN ==> {
                &&& (r is Ok) == (tag@.len() == TAG_LEN && exists|p: Seq<u8>|
                    #[trigger] self.sealed(key@, nonce@, aad@, p) == Some((old(buffer)@, tag@)))
                &&& forall|p: Seq<u8>| #[trigger]
                    self.sealed(key@, nonce@, aad@, p) == Some((old(buffer)@, tag@))
                        && tag@.len() == TAG_LEN ==> r is Ok && final(buffer)@ == p
                &&& r is Err ==> r == Err::<(), AeadError>(AeadError::UnsealFailed)
                    && final(buffer)@ == old(buffer)@
            },
    ;
}

/// The AES-256-GCM ciphertext and tag for a key, nonce, associated data and plaintext,
/// or `None` where the plaintext or associated data exceed the cipher's limits.
pub uninterp spec fn aes256gcm_sealed(key: Seq<u8>, nonce: Seq<u8>, aad: Seq<u8>, plaintext: Seq<u8>) -> Option<(Seq<u8>, Seq<u8>)>;

/// The ChaCha20-Poly1305 ciphertext and tag, as for AES-256-GCM.
pub uninterp spec fn chacha20poly1305_sealed(key: Seq<u8>, nonce: Seq<u8>, aad: Seq<u8>, plaintext: Seq<u8>) -> Option<(Seq<u8>, Seq<u8>)>;

/// AES-256-GCM encryption in place with a detached tag
/// (`aes_gcm::Aes256Gcm::new` and `AeadInOut::encrypt_inout_detached`). The crate
/// fails, before touching the buffer, only when the plaintext or associated data is
/// over its length limit. The tag is computed from the ciphertext (GHASH of the
/// associated data and the ciphertext, masked by the key and nonce), so every plaintext
/// that encrypts to the same ciphertext gets the same tag.
#[verifier::external_body]
fn aes256gcm_encrypt(key: &[u8; 32], nonce: &[u8; 12], aad: &[u8], buffer: &mut [u8]) -> (r: Option<[u8; 16]>)
    ensures
        match aes256gcm_sealed(key@, nonce@, aad@, old(buffer)@) {
            Some((ct, tag)) => r matches Some(t) && t@ == tag && final(buffer)@ == ct
                && forall|p: Seq<u8>| tag_is_unique(#[trigger] aes256gcm_sealed(key@, nonce@, aad@, p), ct, tag),
            None => r is None && final(buffer)@ == old(buffer)@,
        },
{
    let cipher = <aes_gcm::Aes256Gcm as aes_gcm::KeyInit>::new(&(*key).into());
    cipher.encrypt_inout_detached(&(*nonce).into(), aad, buffer.into()).ok().map(|t| t.into())
}

/// AES-256-GCM verification and decryption in place
/// (`AeadInOut::decrypt_inout_detached`). The crate recomputes the tag over the
/// associated data and ciphertext, compares it in constant time, and only on a match
/// applies the keystream; so it succeeds exactly when some plaintext encrypts to this
/// ciphertext and tag, leaves that plaintext, and otherwise leaves the buffer as it was.
#[verifier::external_body]
fn aes256gcm_decrypt(key: &[u8; 32], nonce: &[u8; 12], aad: &[u8], buffer: &mut [u8], tag: &[u8; 16]) -> (r: bool)
    ensures
        r == exists|p: Seq<u8>| #[trigger] aes256gcm_sealed(key@, nonce@, aad@, p) == Some((old(buffer)@, tag@)),
        forall|p: Seq<u8>| #[trigger] aes256gcm_sealed(key@, nonce@, aad@, p) == Some((old(buffer)@, tag@))
            ==> r && final(buffer)@ == p,
        !r ==> final(buffer)@ == old(buffer)@,
{
    let cipher = <aes_gcm::Aes256Gcm as aes_gcm::KeyInit>::new(&(*key).into());
    cipher.decrypt_inout_detached(&(*nonce).into(), aad, buffer.into(), &(*tag).into()).is_ok()
}

/// ChaCha20-Poly1305 encryption in place with a detached tag
/// (`chacha20poly1305::ChaCha20Poly1305::new` and `encrypt_inout_detached`); as for
/// AES-256-GCM. The tag is Poly1305 of the associated data and the ciphertext under a
/// key drawn from the key and nonce, so it too is determined by the ciphertext.
#[verifier::external_body]
fn chacha20poly1305_encrypt(key: &[u8; 32], nonce: &[u8; 12], aad: &[u8], buffer: &mut [u8]) -> (r: Option<[u8; 16]>)
    ensures
        match chacha20poly1305_sealed(key@, nonce@, aad@, old(buffer)@) {
            Some((ct, tag)) => r matches Some(t) && t@ == tag && final(buffer)@ == ct
                && forall|p: Seq<u8>| tag_is_unique(#[trigger] chacha20poly1305_sealed(key@, nonce@, aad@, p), ct, tag),
            None => r is None && final(buffer)@ == old(buffer)@,
        },
{
    let cipher = <chacha20poly1305::ChaCha20Poly1305 as chacha20poly1305::KeyInit>::new(&(*key).into());
    cipher.encrypt_inout_detached(&(*nonce).into(), aad, buffer.into()).ok().map(|t| t.into())
}

/// ChaCha20-Poly1305 verification and decryption in place (`decrypt_inout_detached`):
/// the crate authenticates the associated data, ciphertext and lengths first and
/// applies the keystream only on a match; as for AES-256-GCM.
#[verifier::external_body]
fn chacha20poly1305_decrypt(key: &[u8; 32], nonce: &[u8; 12], aad: &[u8], buffer: &mut [u8], tag: &[u8; 16]) -> (r: bool)
    ensures
        r == exists|p: Seq<u8>| #[trigger] chacha20poly1305_sealed(key@, nonce@, aad@, p) == Some((old(buffer)@, tag@)),
        forall|p: Seq<u8>| #[trigger] chacha20poly1305_sealed(key@, nonce@, aad@, p) == Some((old(buffer)@, tag@))
            ==> r && final(buffer)@ == p,
        !r ==> final(buffer)@ == old(buffer)@,
{
    let cipher = <chacha20poly1305::ChaCha20Poly1305 as chacha20poly1305::KeyInit>::new(&(*key).into());
    cipher.decrypt_inout_detached(&(*nonce).into(), aad, buffer.into(), &(*tag).into()).is_ok()
}

/// Validates the nonce length and copies it into a fixed array.
fn nonce_bytes(nonce: &Nonce) -> (r: Result<[u8; NONCE_LEN], AeadError>)
    ensures
        nonce@.len() == NONCE_LEN ==> (r matches Ok(a) && a@ == nonce@),
        nonce@.len() != NONCE_LEN ==> r == Err::<[u8; NONCE_LEN], AeadError>(AeadError::MalformedNonce),
{
    let s = nonce.as_slice();
    if s.len() != NONCE_LEN {
        return Err(AeadError::MalformedNonce);
    }
    Ok(to_array_12(s))
}

/// Validates the key length (the cipher takes exactly 32 bytes) and copies it.
fn key_bytes(key: &Key) -> (r: Result<[u8; KEY_LEN], AeadError>)
    ensures
        key@.len() == KEY_LEN ==> (r matches Ok(a) && a@ == key@),
        key@.len() != KEY_LEN ==> r == Err::<[u8; KEY_LEN], AeadError>(AeadError::MalformedKey),
{
    let s = key.as_slice();
    if s.len() != KEY_LEN {
        return Err(AeadError::MalformedKey);
    }
    Ok(to_array_32(s))
}

/// The tag as an array; a wrong-length tag cannot authenticate.
fn tag_bytes(tag: &Tag) -> (r: Result<[u8; TAG_LEN], AeadError>)
    ensures
        tag@.len() == TAG_LEN ==> (r matches Ok(a) && a@ == tag@),
        tag@.len() != TAG_LEN ==> r == Err::<[u8; TAG_LEN], AeadError>(AeadError::UnsealFailed),
{
    let s = tag.as_slice();
    if s.len() != TAG_LEN {
        return Err(AeadError::UnsealFailed);
    }
    Ok(to_array_16(s))
}

/// A tag the cipher produced, as a `Tag`.
fn tag_of(t: [u8; 16]) -> (r: Tag)
    ensures
        r@ == t@,
{
    let s: &[u8] = &t;
    match Tag::try_from(s) {
        Ok(tag) => tag,
        Err(_) => {
            proof {
                assert(false);
            }
            Tag(Bytes::new())
        },
    }
}

/// The AES-256-GCM AEAD backend.
pub struct Aes256Gcm;

/// The ChaCha20-Poly1305 AEAD backend (RFC 8439).
pub struct ChaCha20Poly1305;

impl Aead for Aes256Gcm {
    open spec fn sealed(&self, key: Seq<u8>, nonce: Seq<u8>, aad: Seq<u8>, plaintext: Seq<u8>) -> Option<
        (Seq<u8>, Seq<u8>),
    > {
        aes256gcm_sealed(key, nonce, aad, plaintext)
    }

    fn seal(&self, key: &Key, nonce: &Nonce, aad: &[u8], buffer: &mut [u8]) -> (r: Result<
        Tag,
        AeadError,
    >) {
        let k = match key_bytes(key) {
            Ok(x) => x,
            Err(e) => return Err(e),
        };
        let n = match nonce_bytes(nonce) {
            Ok(x) => x,
            Err(e) => return Err(e),
        };
        match aes256gcm_encrypt(&k, &n, aad, buffer) {
            Some(t) => Ok(tag_of(t)),
            None => Err(AeadError::Internal),
        }
    }

    fn unseal(&self, key: &Key, nonce: &Nonce, aad: &[u8], buffer: &mut [u8], tag: &Tag) -> (r:
        Result<(), AeadError>) {
        let k = match key_bytes(key) {
            Ok(x) => x,
            Err(e) => return Err(e),
        };
        let n = match nonce_bytes(nonce) {
            Ok(x) => x,
            Err(e) => return Err(e),
        };
        let t = match tag_bytes(tag) {
            Ok(x) => x,
            Err(e) => return Err(e),
        };
        let ghost before = buffer@;
        let ok = aes256gcm_decrypt(&k, &n, aad, buffer, &t);
        proof {
            if ok {
                let p = choose|p: Seq<u8>| aes256gcm_sealed(k@, n@, aad@, p) == Some((before, t@));
                assert(self.sealed(key@, nonce@, aad@, p) == Some((before, tag@)));
            }
            assert forall|p: Seq<u8>| #[trigger]
                self.sealed(key@, nonce@, aad@, p) == Some((before, tag@)) implies ok && buffer@ == p by {
                assert(aes256gcm_sealed(k@, n@, aad@, p) == Some((before, t@)));
            }
        }
        if ok {
            Ok(())
        } else {
            Err(AeadError::UnsealFailed)
        }
    }
}

impl Aead for ChaCha20Poly1305 {
    open spec fn sealed(&self, key: Seq<u8>, nonce: Seq<u8>, aad: Seq<u8>, plaintext: Seq<u8>) -> Option<
        (Seq<u8>, Seq<u8>),
    > {
        chacha20poly1305_sealed(key, nonce, aad, plaintext)
    }

    fn seal(&self, key: &Key, nonce: &Nonce, aad: &[u8], buffer: &mut [u8]) -> (r: Result<
        Tag,
        AeadError,
    >) {
        let k = match key_bytes(key) {
            Ok(x) => x,
            Err(e) => return Err(e),
        };
        let n = match nonce_bytes(nonce) {
            Ok(x) => x,
            Err(e) => return Err(e),
        };
        match chacha20poly1305_encrypt(&k, &n, aad, buffer) {
            Some(t) => Ok(tag_of(t)),
            None => Err(AeadError::Internal),
        }
    }

    fn unseal(&self, key: &Key, nonce: &Nonce, aad: &[u8], buffer: &mut [u8], tag: &Tag) -> (r:
        Result<(), AeadError>) {
        let k = match key_bytes(key) {
            Ok(x) => x,
            Err(e) => return Err(e),
        };
        let n = match nonce_bytes(nonce) {
            Ok(x) => x,
            Err(e) => return Err(e),
        };
        let t = match tag_bytes(tag) {
            Ok(x) => x,
            Err(e) => return Err(e),
        };
        let ghost before = buffer@;
        let ok = chacha20poly1305_decrypt(&k, &n, aad, buffer, &t);
        proof {
            if ok {
                let p = choose|p: Seq<u8>| chacha20poly1305_sealed(k@, n@, aad@, p) == Some((before, t@));
                assert(self.sealed(key@, nonce@, aad@, p) == Some((before, tag@)));
            }
            assert forall|p: Seq<u8>| #[trigger]
                self.sealed(key@, nonce@, aad@, p) == Some((before, tag@)) implies ok && buffer@ == p by {
                assert(chacha20poly1305_sealed(k@, n@, aad@, p) == Some((before, t@)));
            }
        }
        if ok {
            Ok(())
        } else {
            Err(AeadError::UnsealFailed)
        }
    }
}

} // verus!
