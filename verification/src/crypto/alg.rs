//! Catalog of the cryptographic algorithms supported.
//!
//! Each supported algorithm is one variant of an enum here. The signature, KEM and
//! AEAD algorithms also map to a stable integer COSE codepoint, the only form that
//! travels on the wire; the key-derivation and hashing algorithms carry none.
use vstd::prelude::*;

verus! {

/// A supported signature algorithm.
#[derive(Debug, Clone, Copy, PartialEq, Eq, Structural)]
pub enum SigAlg {
    /// HSS/LMS hash-based signatures, SHA-256.
    HssLmsSha256,
    /// ML-DSA-65 lattice signatures.
    MlDsa65,
    /// ML-DSA-87 lattice signatures.
    MlDsa87,
}

/// A supported key-encapsulation (KEM) algorithm.
#[derive(Debug, Clone, Copy, PartialEq, Eq, Structural)]
pub enum KemAlg {
    /// ML-KEM-768.
    MlKem768,
    /// ML-KEM-1024.
    MlKem1024,
    /// Hybrid X25519 + ML-KEM-768.
    X25519MlKem768,
    /// Hybrid X25519 + ML-KEM-1024.
    X25519MlKem1024,
}

/// A supported authenticated-encryption (AEAD) algorithm.
#[derive(Debug, Clone, Copy, PartialEq, Eq, Structural)]
pub enum AeadAlg {
    /// AES-256-GCM.
    Aes256Gcm,
    /// ChaCha20-Poly1305.
    ChaCha20Poly1305,
}

/// A supported key-derivation function (KDF).
#[derive(Debug, Clone, Copy, PartialEq, Eq, Structural)]
pub enum KdfAlg {
    /// HKDF with SHA-256.
    HkdfSha256,
    /// HKDF with SHA-384.
    HkdfSha384,
}

/// A supported hash function.
#[derive(Debug, Clone, Copy, PartialEq, Eq, Structural)]
pub enum HashAlg {
    /// SHA-256.
    Sha256,
    /// SHA-384.
    Sha384,
}

// COSE algorithm codepoints. `-46` is the IANA-registered HSS-LMS identifier
// (RFC 8778). The others have no stable COSE registration yet, so they are pinned to
// project-local values in COSE's Private Use range (below -65536). Signatures and KEMs
// share one codepoint namespace, so every value below is distinct.
pub const COSE_HSS_LMS: i32 = -46;
pub const COSE_ML_DSA_65: i32 = -65537;
pub const COSE_ML_DSA_87: i32 = -65538;
pub const COSE_ML_KEM_768: i32 = -65539;
pub const COSE_ML_KEM_1024: i32 = -65540;
pub const COSE_X25519_ML_KEM_768: i32 = -65541;
pub const COSE_X25519_ML_KEM_1024: i32 = -65542;

// AEAD codepoints are IANA-registered (RFC 9053).
pub const COSE_AES_256_GCM: i32 = 3;
pub const COSE_CHACHA20_POLY1305: i32 = 24;

/// The codepoint of a signature algorithm.
pub open spec fn sig_codepoint(a: SigAlg) -> i32 {
    match a {
        SigAlg::HssLmsSha256 => COSE_HSS_LMS,
        SigAlg::MlDsa65 => COSE_ML_DSA_65,
        SigAlg::MlDsa87 => COSE_ML_DSA_87,
    }
}

/// The signature algorithm a codepoint names, if any.
pub open spec fn sig_of_codepoint(id: i32) -> Option<SigAlg> {
    if id == COSE_HSS_LMS {
        Some(SigAlg::HssLmsSha256)
    } else if id == COSE_ML_DSA_65 {
        Some(SigAlg::MlDsa65)
    } else if id == COSE_ML_DSA_87 {
        Some(SigAlg::MlDsa87)
    } else {
        None
    }
}

/// The codepoint of a KEM algorithm.
pub open spec fn kem_codepoint(a: KemAlg) -> i32 {
    match a {
        KemAlg::MlKem768 => COSE_ML_KEM_768,
        KemAlg::MlKem1024 => COSE_ML_KEM_1024,
        KemAlg::X25519MlKem768 => COSE_X25519_ML_KEM_768,
        KemAlg::X25519MlKem1024 => COSE_X25519_ML_KEM_1024,
    }
}

/// The KEM algorithm a codepoint names, if any.
pub open spec fn kem_of_codepoint(id: i32) -> Option<KemAlg> {
    if id == COSE_ML_KEM_768 {
        Some(KemAlg::MlKem768)
    } else if id == COSE_ML_KEM_1024 {
        Some(KemAlg::MlKem1024)
    } else if id == COSE_X25519_ML_KEM_768 {
        Some(KemAlg::X25519MlKem768)
    } else if id == COSE_X25519_ML_KEM_1024 {
        Some(KemAlg::X25519MlKem1024)
    } else {
        None
    }
}

/// The codepoint of an AEAD algorithm.
pub open spec fn aead_codepoint(a: AeadAlg) -> i32 {
    match a {
        AeadAlg::Aes256Gcm => COSE_AES_256_GCM,
        AeadAlg::ChaCha20Poly1305 => COSE_CHACHA20_POLY1305,
    }
}

/// The AEAD algorithm a codepoint names, if any.
pub open spec fn aead_of_codepoint(id: i32) -> Option<AeadAlg> {
    if id == COSE_AES_256_GCM {
        Some(AeadAlg::Aes256Gcm)
    } else if id == COSE_CHACHA20_POLY1305 {
        Some(AeadAlg::ChaCha20Poly1305)
    } else {
        None
    }
}

impl SigAlg {
    /// The COSE algorithm codepoint that identifies this algorithm on the wire.
    pub fn cose_id(self) -> (r: i32)
        ensures
            r == sig_codepoint(self),
    {
        match self {
            SigAlg::HssLmsSha256 => COSE_HSS_LMS,
            SigAlg::MlDsa65 => COSE_ML_DSA_65,
            SigAlg::MlDsa87 => COSE_ML_DSA_87,
        }
    }

    /// The algorithm for a COSE codepoint, or `None` if it is not recognized.
    pub fn from_cose_id(id: i32) -> (r: Option<Self>)
        ensures
            r == sig_of_codepoint(id),
    {
        if id == COSE_HSS_LMS {
            Some(SigAlg::HssLmsSha256)
        } else if id == COSE_ML_DSA_65 {
            Some(SigAlg::MlDsa65)
        } else if id == COSE_ML_DSA_87 {
            Some(SigAlg::MlDsa87)
        } else {
            None
        }
    }
}

impl KemAlg {
    /// The COSE algorithm codepoint that identifies this algorithm on the wire.
    pub fn cose_id(self) -> (r: i32)
        ensures
            r == kem_codepoint(self),
    {
        match self {
            KemAlg::MlKem768 => COSE_ML_KEM_768,
            KemAlg::MlKem1024 => COSE_ML_KEM_1024,
            KemAlg::X25519MlKem768 => COSE_X25519_ML_KEM_768,
            KemAlg::X25519MlKem1024 => COSE_X25519_ML_KEM_1024,
        }
    }

    /// The algorithm for a COSE codepoint, or `None` if it is not recognized.
    pub fn from_cose_id(id: i32) -> (r: Option<Self>)
        ensures
            r == kem_of_codepoint(id),
    {
        if id == COSE_ML_KEM_768 {
            Some(KemAlg::MlKem768)
        } else if id == COSE_ML_KEM_1024 {
            Some(KemAlg::MlKem1024)
        } else if id == COSE_X25519_ML_KEM_768 {
            Some(KemAlg::X25519MlKem768)
        } else if id == COSE_X25519_ML_KEM_1024 {
            Some(KemAlg::X25519MlKem1024)
        } else {
            None
        }
    }
}

impl AeadAlg {
    /// The COSE algorithm codepoint that identifies this AEAD on the wire.
    pub fn cose_id(self) -> (r: i32)
        ensures
            r == aead_codepoint(self),
    {
        match self {
            AeadAlg::Aes256Gcm => COSE_AES_256_GCM,
            AeadAlg::ChaCha20Poly1305 => COSE_CHACHA20_POLY1305,
        }
    }

    /// The AEAD for a COSE codepoint, or `None` if it is not recognized.
    pub fn from_cose_id(id: i32) -> (r: Option<Self>)
        ensures
            r == aead_of_codepoint(id),
    {
        if id == COSE_AES_256_GCM {
            Some(AeadAlg::Aes256Gcm)
        } else if id == COSE_CHACHA20_POLY1305 {
            Some(AeadAlg::ChaCha20Poly1305)
        } else {
            None
        }
    }
}

/// A codepoint names an algorithm exactly when it is that algorithm's codepoint:
/// reading an algorithm's codepoint back gives the algorithm, and every recognized
/// codepoint is the codepoint of what it names.
pub proof fn lemma_codepoints_round_trip(s: SigAlg, k: KemAlg, a: AeadAlg, id: i32)
    ensures
        sig_of_codepoint(sig_codepoint(s)) == Some(s),
        kem_of_codepoint(kem_codepoint(k)) == Some(k),
        aead_of_codepoint(aead_codepoint(a)) == Some(a),
        sig_of_codepoint(id) matches Some(x) ==> sig_codepoint(x) == id,
        kem_of_codepoint(id) matches Some(x) ==> kem_codepoint(x) == id,
        aead_of_codepoint(id) matches Some(x) ==> aead_codepoint(x) == id,
{
}

/// Signatures and KEMs share one codepoint namespace: no two distinct algorithms of
/// either kind have the same codepoint.
pub proof fn lemma_codepoints_distinct(s1: SigAlg, s2: SigAlg, k1: KemAlg, k2: KemAlg)
    ensures
        sig_codepoint(s1) == sig_codepoint(s2) ==> s1 == s2,
        kem_codepoint(k1) == kem_codepoint(k2) ==> k1 == k2,
        sig_codepoint(s1) != kem_codepoint(k1),
{
}

} // verus!
