//! Signing-side value types (keys and signatures) and the signing interfaces.
use vstd::prelude::*;
use crate::crypto::bytes::{Bytes, BytesError};
use crate::crypto::error::{SignError, VerifyError};

verus! {

// Buffer capacities, each the largest over the supported signature algorithms:
// ML-DSA-87 for all three (its largest HSS/LMS signature is about 2964 bytes).
/// ML-DSA-87 secret key.
pub const SIGNING_KEY_MAX: usize = 4896;
/// ML-DSA-87 public key.
pub const VERIFYING_KEY_MAX: usize = 2592;
/// ML-DSA-87 signature.
pub const SIGNATURE_MAX: usize = 4627;

/// A secret signing key, as raw bytes. It has no `Debug` (its bytes are never printed)
/// and can be wiped with `zeroize`.
pub struct SigningKey(Bytes<SIGNING_KEY_MAX>);

impl View for SigningKey {
    type V = Seq<u8>;

    closed spec fn view(&self) -> Seq<u8> {
        self.0@
    }
}

impl SigningKey {
    /// Returns the value's bytes.
    pub fn as_slice(&self) -> (r: &[u8])
        ensures
            r@ == self@,
            r@.len() <= SIGNING_KEY_MAX,
    {
        self.0.as_slice()
    }

    /// Overwrites the secret bytes with zeros; the length is unchanged.
    pub fn zeroize(&mut self)
        ensures
            final(self)@ == Seq::new(old(self)@.len(), |i: int| 0u8),
    {
        self.0.zeroize();
    }
}

impl Clone for SigningKey {
    fn clone(&self) -> (r: Self)
        ensures
            r@ == self@,
    {
        SigningKey(self.0.clone())
    }
}

impl vstd::std_specs::cmp::PartialEqSpecImpl for SigningKey {
    open spec fn obeys_eq_spec() -> bool {
        true
    }

    open spec fn eq_spec(&self, other: &Self) -> bool {
        self@ == other@
    }
}

impl PartialEq for SigningKey {
    fn eq(&self, other: &Self) -> (r: bool) {
        self.0.ct_eq(&other.0)
    }
}

impl Eq for SigningKey {
}

impl<'a> vstd::std_specs::convert::TryFromSpecImpl<&'a [u8]> for SigningKey {
    open spec fn obeys_try_from_spec() -> bool {
        false
    }

    open spec fn try_from_spec(bytes: &'a [u8]) -> Result<Self, BytesError> {
        Err(BytesError::TooLong { len: 0, max: 0 })
    }
}

impl<'a> TryFrom<&'a [u8]> for SigningKey {
    type Error = BytesError;

    /// Copies `bytes`, or `TooLong` if there are more than the capacity.
    fn try_from(bytes: &'a [u8]) -> (r: Result<Self, BytesError>)
        ensures
            bytes@.len() <= SIGNING_KEY_MAX ==> (r matches Ok(v) && v@ == bytes@),
            bytes@.len() > SIGNING_KEY_MAX ==> r == Err::<Self, BytesError>(
                BytesError::TooLong { len: bytes@.len() as usize, max: SIGNING_KEY_MAX },
            ),
    {
        match Bytes::<SIGNING_KEY_MAX>::from_slice(bytes) {
            Ok(b) => Ok(SigningKey(b)),
            Err(e) => Err(e),
        }
    }
}

/// A public verifying key, as raw bytes.
#[derive(Debug)]
pub struct VerifyingKey(Bytes<VERIFYING_KEY_MAX>);

impl View for VerifyingKey {
    type V = Seq<u8>;

    closed spec fn view(&self) -> Seq<u8> {
        self.0@
    }
}

impl VerifyingKey {
    /// Returns the value's bytes.
    pub fn as_slice(&self) -> (r: &[u8])
        ensures
            r@ == self@,
            r@.len() <= VERIFYING_KEY_MAX,
    {
        self.0.as_slice()
    }
}

impl Clone for VerifyingKey {
    fn clone(&self) -> (r: Self)
        ensures
            r@ == self@,
    {
        VerifyingKey(self.0.clone())
    }
}

impl vstd::std_specs::cmp::PartialEqSpecImpl for VerifyingKey {
    open spec fn obeys_eq_spec() -> bool {
        true
    }

    open spec fn eq_spec(&self, other: &Self) -> bool {
        self@ == other@
    }
}

impl PartialEq for VerifyingKey {
    fn eq(&self, other: &Self) -> (r: bool) {
        self.0.ct_eq(&other.0)
    }
}

impl Eq for VerifyingKey {
}

impl<'a> vstd::std_specs::convert::TryFromSpecImpl<&'a [u8]> for VerifyingKey {
    open spec fn obeys_try_from_spec() -> bool {
        false
    }

    open spec fn try_from_spec(bytes: &'a [u8]) -> Result<Self, BytesError> {
        Err(BytesError::TooLong { len: 0, max: 0 })
    }
}

impl<'a> TryFrom<&'a [u8]> for VerifyingKey {
    type Error = BytesError;

    /// Copies `bytes`, or `TooLong` if there are more than the capacity.
    fn try_from(bytes: &'a [u8]) -> (r: Result<Self, BytesError>)
        ensures
            bytes@.len() <= VERIFYING_KEY_MAX ==> (r matches Ok(v) && v@ == bytes@),
            bytes@.len() > VERIFYING_KEY_MAX ==> r == Err::<Self, BytesError>(
                BytesError::TooLong { len: bytes@.len() as usize, max: VERIFYING_KEY_MAX },
            ),
    {
        match Bytes::<VERIFYING_KEY_MAX>::from_slice(bytes) {
            Ok(b) => Ok(VerifyingKey(b)),
            Err(e) => Err(e),
        }
    }
}

/// A signature, as raw bytes.
#[derive(Debug)]
pub struct Signature(Bytes<SIGNATURE_MAX>);

impl View for Signature {
    type V = Seq<u8>;

    closed spec fn view(&self) -> Seq<u8> {
        self.0@
    }
}

impl Signature {
    /// Returns the value's bytes.
    pub fn as_slice(&self) -> (r: &[u8])
        ensures
            r@ == self@,
            r@.len() <= SIGNATURE_MAX,
    {
        self.0.as_slice()
    }
}

impl Clone for Signature {
    fn clone(&self) -> (r: Self)
        ensures
            r@ == self@,
    {
        Signature(self.0.clone())
    }
}

impl vstd::std_specs::cmp::PartialEqSpecImpl for Signature {
    open spec fn obeys_eq_spec() -> bool {
        true
    }

    open spec fn eq_spec(&self, other: &Self) -> bool {
        self@ == other@
    }
}

impl PartialEq for Signature {
    fn eq(&self, other: &Self) -> (r: bool) {
        self.0.ct_eq(&other.0)
    }
}

impl Eq for Signature {
}

impl<'a> vstd::std_specs::convert::TryFromSpecImpl<&'a [u8]> for Signature {
    open spec fn obeys_try_from_spec() -> bool {
        false
    }

    open spec fn try_from_spec(bytes: &'a [u8]) -> Result<Self, BytesError> {
        Err(BytesError::TooLong { len: 0, max: 0 })
    }
}

impl<'a> TryFrom<&'a [u8]> for Signature {
    type Error = BytesError;

    /// Copies `bytes`, or `TooLong` if there are more than the capacity.
    fn try_from(bytes: &'a [u8]) -> (r: Result<Self, BytesError>)
        ensures
            bytes@.len() <= SIGNATURE_MAX ==> (r matches Ok(v) && v@ == bytes@),
            bytes@.len() > SIGNATURE_MAX ==> r == Err::<Self, BytesError>(
                BytesError::TooLong { len: bytes@.len() as usize, max: SIGNATURE_MAX },
            ),
    {
        match Bytes::<SIGNATURE_MAX>::from_slice(bytes) {
            Ok(b) => Ok(Signature(b)),
            Err(e) => Err(e),
        }
    }
}

/// A signing backend: produces a signature over a message with a secret key.
pub trait Signer {
    /// What signing `message` with `key` gives.
    spec fn signature_of(&self, key: Seq<u8>, message: Seq<u8>) -> Result<Seq<u8>, SignError>;

    /// Signs `message` with `key`.
    fn sign(&self, key: &SigningKey, message: &[u8]) -> (r: Result<Signature, SignError>)
        ensures
            match self.signature_of(key@, message@) {
                Ok(s) => r matches Ok(sig) && sig@ == s,
                Err(e) => r == Err::<Signature, SignError>(e),
            },
    ;
}

/// A stateful signing backend (hash-based signatures such as LMS/HSS): each signature
/// spends one-time key material, so the advanced private key must be stored before the
/// signature is released.
pub trait StatefulSigner {
    /// Signs `message` with `key`, calling `persist` with the advanced private-key bytes
    /// before the signature is returned. A `persist` failure aborts the sign (no
    /// signature is released), so the stored state and the returned signature can never
    /// disagree.
    fn sign<F: FnMut(&[u8]) -> Result<(), SignError>>(
        &self,
        key: &SigningKey,
        message: &[u8],
        persist: &mut F,
    ) -> Result<Signature, SignError>;
}

/// A verifying backend: checks a signature against a verifying key and message.
pub trait Verifier {
    /// The verdict on `signature` over `message` under `key`.
    spec fn verdict(&self, key: Seq<u8>, message: Seq<u8>, signature: Seq<u8>) -> Result<(), VerifyError>;

    /// Checks `signature` over `message` against `key`: `Ok(())` means valid;
    /// `Err(VerifyError::VerificationFailed)` means well-formed but not matching.
    fn verify(&self, key: &VerifyingKey, message: &[u8], signature: &Signature) -> (r: Result<(), VerifyError>)
        ensures
            r == self.verdict(key@, message@, signature@),
    ;
}

} // verus!
