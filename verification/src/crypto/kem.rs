//! Key-exchange (KEM) value types and the KEM interface.
use vstd::prelude::*;
use crate::crypto::bytes::{Bytes, BytesError};
use crate::crypto::error::KemError;

verus! {

// Capacities: the hybrid figures add X25519's 32 bytes to the ML-KEM-1024 sizes.
/// X25519 (32) + ML-KEM-1024 encapsulation key (1568).
pub const ENCAPSULATION_KEY_MAX: usize = 1600;
/// X25519 (32) + ML-KEM-1024 decapsulation key (3168).
pub const DECAPSULATION_KEY_MAX: usize = 3200;
/// X25519 (32) + ML-KEM-1024 ciphertext (1568).
pub const CIPHERTEXT_MAX: usize = 1600;
/// The combiner output.
pub const SHARED_SECRET_MAX: usize = 32;

/// A public encapsulation key, as raw bytes.
#[derive(Debug)]
pub struct EncapsulationKey(Bytes<ENCAPSULATION_KEY_MAX>);

impl View for EncapsulationKey {
    type V = Seq<u8>;

    closed spec fn view(&self) -> Seq<u8> {
        self.0@
    }
}

impl EncapsulationKey {
    /// Returns the value's bytes.
    pub fn as_slice(&self) -> (r: &[u8])
        ensures
            r@ == self@,
            r@.len() <= ENCAPSULATION_KEY_MAX,
    {
        self.0.as_slice()
    }
}

impl Clone for EncapsulationKey {
    fn clone(&self) -> (r: Self)
        ensures
            r@ == self@,
    {
        EncapsulationKey(self.0.clone())
    }
}

impl vstd::std_specs::cmp::PartialEqSpecImpl for EncapsulationKey {
    open spec fn obeys_eq_spec() -> bool {
        true
    }

    open spec fn eq_spec(&self, other: &Self) -> bool {
        self@ == other@
    }
}

impl PartialEq for EncapsulationKey {
    fn eq(&self, other: &Self) -> (r: bool) {
        self.0.ct_eq(&other.0)
    }
}

impl Eq for EncapsulationKey {
}

impl<'a> vstd::std_specs::convert::TryFromSpecImpl<&'a [u8]> for EncapsulationKey {
    open spec fn obeys_try_from_spec() -> bool {
        false
    }

    open spec fn try_from_spec(bytes: &'a [u8]) -> Result<Self, BytesError> {
        Err(BytesError::TooLong { len: 0, max: 0 })
    }
}

impl<'a> TryFrom<&'a [u8]> for EncapsulationKey {
    type Error = BytesError;

    /// Copies `bytes`, or `TooLong` if there are more than the capacity.
    fn try_from(bytes: &'a [u8]) -> (r: Result<Self, BytesError>)
        ensures
            bytes@.len() <= ENCAPSULATION_KEY_MAX ==> (r matches Ok(v) && v@ == bytes@),
            bytes@.len() > ENCAPSULATION_KEY_MAX ==> r == Err::<Self, BytesError>(
                BytesError::TooLong { len: bytes@.len() as usize, max: ENCAPSULATION_KEY_MAX },
            ),
    {
        match Bytes::<ENCAPSULATION_KEY_MAX>::from_slice(bytes) {
            Ok(b) => Ok(EncapsulationKey(b)),
            Err(e) => Err(e),
        }
    }
}

/// A secret decapsulation key, as raw bytes. It has no `Debug` (its bytes are never
/// printed) and can be wiped with `zeroize`.
pub struct DecapsulationKey(Bytes<DECAPSULATION_KEY_MAX>);

impl View for DecapsulationKey {
    type V = Seq<u8>;

    closed spec fn view(&self) -> Seq<u8> {
        self.0@
    }
}

impl DecapsulationKey {
    /// Returns the value's bytes.
    pub fn as_slice(&self) -> (r: &[u8])
        ensures
            r@ == self@,
            r@.len() <= DECAPSULATION_KEY_MAX,
    {
        self.0.as_slice()
    }

    /// Overwrites the secret bytes with zeros; the length is unchanged.
    pub fn zeroize(&mut self)
        ensures
            final(self)@ == Seq::new(old(self)@.len(), |i: int| 0u8),
    {
        self.0.zeroize();
    }
}

impl Clone for DecapsulationKey {
    fn clone(&self) -> (r: Self)
        ensures
            r@ == self@,
    {
        DecapsulationKey(self.0.clone())
    }
}

impl vstd::std_specs::cmp::PartialEqSpecImpl for DecapsulationKey {
    open spec fn obeys_eq_spec() -> bool {
        true
    }

    open spec fn eq_spec(&self, other: &Self) -> bool {
        self@ == other@
    }
}

impl PartialEq for DecapsulationKey {
    fn eq(&self, other: &Self) -> (r: bool) {
        self.0.ct_eq(&other.0)
    }
}

impl Eq for DecapsulationKey {
}

impl<'a> vstd::std_specs::convert::TryFromSpecImpl<&'a [u8]> for DecapsulationKey {
    open spec fn obeys_try_from_spec() -> bool {
        false
    }

    open spec fn try_from_spec(bytes: &'a [u8]) -> Result<Self, BytesError> {
        Err(BytesError::TooLong { len: 0, max: 0 })
    }
}

impl<'a> TryFrom<&'a [u8]> for DecapsulationKey {
    type Error = BytesError;

    /// Copies `bytes`, or `TooLong` if there are more than the capacity.
    fn try_from(bytes: &'a [u8]) -> (r: Result<Self, BytesError>)
        ensures
            bytes@.len() <= DECAPSULATION_KEY_MAX ==> (r matches Ok(v) && v@ == bytes@),
            bytes@.len() > DECAPSULATION_KEY_MAX ==> r == Err::<Self, BytesError>(
                BytesError::TooLong { len: bytes@.len() as usize, max: DECAPSULATION_KEY_MAX },
            ),
    {
        match Bytes::<DECAPSULATION_KEY_MAX>::from_slice(bytes) {
            Ok(b) => Ok(DecapsulationKey(b)),
            Err(e) => Err(e),
        }
    }
}

/// A KEM ciphertext (the encapsulation), as raw bytes.
#[derive(Debug)]
pub struct Ciphertext(Bytes<CIPHERTEXT_MAX>);

impl View for Ciphertext {
    type V = Seq<u8>;

    closed spec fn view(&self) -> Seq<u8> {
        self.0@
    }
}

impl Ciphertext {
    /// Returns the value's bytes.
    pub fn as_slice(&self) -> (r: &[u8])
        ensures
            r@ == self@,
            r@.len() <= CIPHERTEXT_MAX,
    {
        self.0.as_slice()
    }
}

impl Clone for Ciphertext {
    fn clone(&self) -> (r: Self)
        ensures
            r@ == self@,
    {
        Ciphertext(self.0.clone())
    }
}

impl vstd::std_specs::cmp::PartialEqSpecImpl for Ciphertext {
    open spec fn obeys_eq_spec() -> bool {
        true
    }

    open spec fn eq_spec(&self, other: &Self) -> bool {
        self@ == other@
    }
}

impl PartialEq for Ciphertext {
    fn eq(&self, other: &Self) -> (r: bool) {
        self.0.ct_eq(&other.0)
    }
}

impl Eq for Ciphertext {
}

impl<'a> vstd::std_specs::convert::TryFromSpecImpl<&'a [u8]> for Ciphertext {
    open spec fn obeys_try_from_spec() -> bool {
        false
    }

    open spec fn try_from_spec(bytes: &'a [u8]) -> Result<Self, BytesError> {
        Err(BytesError::TooLong { len: 0, max: 0 })
    }
}

impl<'a> TryFrom<&'a [u8]> for Ciphertext {
    type Error = BytesError;

    /// Copies `bytes`, or `TooLong` if there are more than the capacity.
    fn try_from(bytes: &'a [u8]) -> (r: Result<Self, BytesError>)
        ensures
            bytes@.len() <= CIPHERTEXT_MAX ==> (r matches Ok(v) && v@ == bytes@),
            bytes@.len() > CIPHERTEXT_MAX ==> r == Err::<Self, BytesError>(
                BytesError::TooLong { len: bytes@.len() as usize, max: CIPHERTEXT_MAX },
            ),
    {
        match Bytes::<CIPHERTEXT_MAX>::from_slice(bytes) {
            Ok(b) => Ok(Ciphertext(b)),
            Err(e) => Err(e),
        }
    }
}

/// A derived shared secret, as raw bytes. It has no `Debug` (its bytes are never
/// printed) and can be wiped with `zeroize`.
pub struct SharedSecret(Bytes<SHARED_SECRET_MAX>);

impl View for SharedSecret {
    type V = Seq<u8>;

    closed spec fn view(&self) -> Seq<u8> {
        self.0@
    }
}

impl SharedSecret {
    /// Returns the value's bytes.
    pub fn as_slice(&self) -> (r: &[u8])
        ensures
            r@ == self@,
            r@.len() <= SHARED_SECRET_MAX,
    {
        self.0.as_slice()
    }

    /// Overwrites the secret bytes with zeros; the length is unchanged.
    pub fn zeroize(&mut self)
        ensures
            final(self)@ == Seq::new(old(self)@.len(), |i: int| 0u8),
    {
        self.0.zeroize();
    }
}

impl Clone for SharedSecret {
    fn clone(&self) -> (r: Self)
        ensures
            r@ == self@,
    {
        SharedSecret(self.0.clone())
    }
}

impl vstd::std_specs::cmp::PartialEqSpecImpl for SharedSecret {
    open spec fn obeys_eq_spec() -> bool {
        true
    }

    open spec fn eq_spec(&self, other: &Self) -> bool {
        self@ == other@
    }
}

impl PartialEq for SharedSecret {
    fn eq(&self, other: &Self) -> (r: bool) {
        self.0.ct_eq(&other.0)
    }
}

impl Eq for SharedSecret {
}

impl<'a> vstd::std_specs::convert::TryFromSpecImpl<&'a [u8]> for SharedSecret {
    open spec fn obeys_try_from_spec() -> bool {
        false
    }

    open spec fn try_from_spec(bytes: &'a [u8]) -> Result<Self, BytesError> {
        Err(BytesError::TooLong { len: 0, max: 0 })
    }
}

impl<'a> TryFrom<&'a [u8]> for SharedSecret {
    type Error = BytesError;

    /// Copies `bytes`, or `TooLong` if there are more than the capacity.
    fn try_from(bytes: &'a [u8]) -> (r: Result<Self, BytesError>)
        ensures
            bytes@.len() <= SHARED_SECRET_MAX ==> (r matches Ok(v) && v@ == bytes@),
            bytes@.len() > SHARED_SECRET_MAX ==> r == Err::<Self, BytesError>(
                BytesError::TooLong { len: bytes@.len() as usize, max: SHARED_SECRET_MAX },
            ),
    {
        match Bytes::<SHARED_SECRET_MAX>::from_slice(bytes) {
            Ok(b) => Ok(SharedSecret(b)),
            Err(e) => Err(e),
        }
    }
}

/// A key-encapsulation backend.
///
/// Encapsulation draws its randomness from the caller's `entropy`, so the operation is
/// a function of its inputs; decapsulation is deterministic.
pub trait Kem {
    /// What encapsulating to `key` with `entropy` gives: the ciphertext and the shared
    /// secret, or the error.
    spec fn encaps(&self, key: Seq<u8>, entropy: Seq<u8>) -> Result<(Seq<u8>, Seq<u8>), KemError>;

    /// What decapsulating `ciphertext` with `key` gives.
    spec fn decaps(&self, key: Seq<u8>, ciphertext: Seq<u8>) -> Result<Seq<u8>, KemError>;

    /// Encapsulates a fresh shared secret to `key`, returning the ciphertext that lets the
    /// key's owner recover it.
    fn encapsulate(&self, key: &EncapsulationKey, entropy: &[u8]) -> (r: Result<
        (Ciphertext, SharedSecret),
        KemError,
    >)
        ensures
            match self.encaps(key@, entropy@) {
                Ok((ct, ss)) => r matches Ok((c, s)) && c@ == ct && s@ == ss,
                Err(e) => r == Err::<(Ciphertext, SharedSecret), KemError>(e),
            },
    ;

    /// Recovers the shared secret from `ciphertext` with the secret `key`.
    fn decapsulate(&self, key: &DecapsulationKey, ciphertext: &Ciphertext) -> (r: Result<
        SharedSecret,
        KemError,
    >)
        ensures
            match self.decaps(key@, ciphertext@) {
                Ok(ss) => r matches Ok(s) && s@ == ss,
                Err(e) => r == Err::<SharedSecret, KemError>(e),
            },
    ;
}


/// A bounded byte value built from a byte string: the values that hybrid key
/// exchange assembles by concatenation.
pub trait FromBytes: Sized {
    /// The most bytes the value holds.
    spec fn capacity() -> nat;

    /// The value's bytes.
    spec fn bytes(&self) -> Seq<u8>;

    /// Copies `b` into a value, or `None` if it is longer than the capacity.
    fn from_bytes(b: &[u8]) -> (r: Option<Self>)
        ensures
            b@.len() <= Self::capacity() ==> (r matches Some(v) && v.bytes() == b@),
            b@.len() > Self::capacity() ==> r is None,
    ;
}

impl FromBytes for EncapsulationKey {
    open spec fn capacity() -> nat {
        ENCAPSULATION_KEY_MAX as nat
    }

    open spec fn bytes(&self) -> Seq<u8> {
        self@
    }

    fn from_bytes(b: &[u8]) -> (r: Option<Self>) {
        match EncapsulationKey::try_from(b) {
            Ok(v) => Some(v),
            Err(_) => None,
        }
    }
}

impl FromBytes for DecapsulationKey {
    open spec fn capacity() -> nat {
        DECAPSULATION_KEY_MAX as nat
    }

    open spec fn bytes(&self) -> Seq<u8> {
        self@
    }

    fn from_bytes(b: &[u8]) -> (r: Option<Self>) {
        match DecapsulationKey::try_from(b) {
            Ok(v) => Some(v),
            Err(_) => None,
        }
    }
}

impl FromBytes for Ciphertext {
    open spec fn capacity() -> nat {
        CIPHERTEXT_MAX as nat
    }

    open spec fn bytes(&self) -> Seq<u8> {
        self@
    }

    fn from_bytes(b: &[u8]) -> (r: Option<Self>) {
        match Ciphertext::try_from(b) {
            Ok(v) => Some(v),
            Err(_) => None,
        }
    }
}

} // verus!
