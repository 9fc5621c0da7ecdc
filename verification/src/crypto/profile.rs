//! The crypto profile: one value that selects every algorithm for a deployment.
//!
//! Switching profile is a single value change with no per-scheme code edits; this is
//! the crypto-agility seam. The build defaults to the showcase profile.
use vstd::prelude::*;
use crate::crypto::alg::{AeadAlg, HashAlg, KdfAlg, KemAlg, SigAlg};

verus! {

/// A bundle of algorithm choices selected together.
///
/// Each profile fixes one algorithm per role; the accessors return them.
#[derive(Debug, Clone, Copy, PartialEq, Eq, Structural)]
pub enum CryptoProfile {
    /// The showcase profile, the default build.
    Showcase,
    /// The CNSA 2.0 profile.
    Cnsa20,
}

impl Default for CryptoProfile {
    fn default() -> (r: Self)
        ensures
            r == CryptoProfile::Showcase,
    {
        CryptoProfile::Showcase
    }
}

/// Whether `alg` is permitted under profile `p`: AES-256-GCM under both profiles,
/// ChaCha20-Poly1305 under the showcase profile only.
pub open spec fn profile_allows_aead(p: CryptoProfile, alg: AeadAlg) -> bool {
    match alg {
        AeadAlg::Aes256Gcm => true,
        AeadAlg::ChaCha20Poly1305 => p == CryptoProfile::Showcase,
    }
}

/// The general-purpose signature algorithm a profile selects.
pub open spec fn profile_general_sig(p: CryptoProfile) -> SigAlg {
    match p {
        CryptoProfile::Showcase => SigAlg::MlDsa65,
        CryptoProfile::Cnsa20 => SigAlg::MlDsa87,
    }
}

/// The hybrid KEM a profile selects.
pub open spec fn profile_hybrid_kem(p: CryptoProfile) -> KemAlg {
    match p {
        CryptoProfile::Showcase => KemAlg::X25519MlKem768,
        CryptoProfile::Cnsa20 => KemAlg::X25519MlKem1024,
    }
}

/// The AEAD a profile selects.
pub open spec fn profile_aead(p: CryptoProfile) -> AeadAlg {
    match p {
        CryptoProfile::Showcase => AeadAlg::Aes256Gcm,
        CryptoProfile::Cnsa20 => AeadAlg::Aes256Gcm,
    }
}

impl CryptoProfile {
    /// The general-purpose (lattice) signature algorithm.
    pub fn general_sig(self) -> (r: SigAlg)
        ensures
            r == profile_general_sig(self),
    {
        match self {
            CryptoProfile::Showcase => SigAlg::MlDsa65,
            CryptoProfile::Cnsa20 => SigAlg::MlDsa87,
        }
    }

    /// The key-encapsulation algorithm.
    pub fn kem(self) -> (r: KemAlg)
        ensures
            r == (match self {
                CryptoProfile::Showcase => KemAlg::MlKem768,
                CryptoProfile::Cnsa20 => KemAlg::MlKem1024,
            }),
    {
        match self {
            CryptoProfile::Showcase => KemAlg::MlKem768,
            CryptoProfile::Cnsa20 => KemAlg::MlKem1024,
        }
    }

    /// The hybrid key-encapsulation algorithm.
    pub fn hybrid_kem(self) -> (r: KemAlg)
        ensures
            r == profile_hybrid_kem(self),
    {
        match self {
            CryptoProfile::Showcase => KemAlg::X25519MlKem768,
            CryptoProfile::Cnsa20 => KemAlg::X25519MlKem1024,
        }
    }

    /// The authenticated-encryption (AEAD) algorithm: AES-256-GCM in both profiles.
    pub fn aead(self) -> (r: AeadAlg)
        ensures
            r == profile_aead(self),
    {
        match self {
            CryptoProfile::Showcase => AeadAlg::Aes256Gcm,
            CryptoProfile::Cnsa20 => AeadAlg::Aes256Gcm,
        }
    }

    /// Whether `alg` is a permitted AEAD under this profile. AES-256-GCM is required by
    /// both profiles; ChaCha20-Poly1305 is an alternative offered only by the showcase
    /// profile.
    pub fn allows_aead(self, alg: AeadAlg) -> (r: bool)
        ensures
            r == profile_allows_aead(self, alg),
    {
        match alg {
            AeadAlg::Aes256Gcm => true,
            AeadAlg::ChaCha20Poly1305 => match self {
                CryptoProfile::Showcase => true,
                CryptoProfile::Cnsa20 => false,
            },
        }
    }

    /// The key-derivation function.
    pub fn kdf(self) -> (r: KdfAlg)
        ensures
            r == (match self {
                CryptoProfile::Showcase => KdfAlg::HkdfSha256,
                CryptoProfile::Cnsa20 => KdfAlg::HkdfSha384,
            }),
    {
        match self {
            CryptoProfile::Showcase => KdfAlg::HkdfSha256,
            CryptoProfile::Cnsa20 => KdfAlg::HkdfSha384,
        }
    }

    /// The general-purpose hash function.
    pub fn hash(self) -> (r: HashAlg)
        ensures
            r == (match self {
                CryptoProfile::Showcase => HashAlg::Sha256,
                CryptoProfile::Cnsa20 => HashAlg::Sha384,
            }),
    {
        match self {
            CryptoProfile::Showcase => HashAlg::Sha256,
            CryptoProfile::Cnsa20 => HashAlg::Sha384,
        }
    }
}

/// A profile always permits the AEAD it selects.
pub proof fn lemma_profile_allows_its_aead(p: CryptoProfile)
    ensures
        profile_allows_aead(p, profile_aead(p)),
{
}

} // verus!
