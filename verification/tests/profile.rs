use koffer::crypto::alg::{AeadAlg, HashAlg, KdfAlg, KemAlg, SigAlg};
use koffer::crypto::profile::CryptoProfile;

#[test]
fn showcase_profile_bundle() {
    let p = CryptoProfile::Showcase;
    assert_eq!(p.general_sig(), SigAlg::MlDsa65);
    assert_eq!(p.kem(), KemAlg::MlKem768);
    assert_eq!(p.hybrid_kem(), KemAlg::X25519MlKem768);
    assert_eq!(p.aead(), AeadAlg::Aes256Gcm);
    assert_eq!(p.kdf(), KdfAlg::HkdfSha256);
    assert_eq!(p.hash(), HashAlg::Sha256);
}

#[test]
fn cnsa20_profile_bundle() {
    let p = CryptoProfile::Cnsa20;
    assert_eq!(p.general_sig(), SigAlg::MlDsa87);
    assert_eq!(p.kem(), KemAlg::MlKem1024);
    assert_eq!(p.hybrid_kem(), KemAlg::X25519MlKem1024);
    assert_eq!(p.aead(), AeadAlg::Aes256Gcm);
    assert_eq!(p.kdf(), KdfAlg::HkdfSha384);
    assert_eq!(p.hash(), HashAlg::Sha384);
}

#[test]
fn default_is_showcase() {
    assert_eq!(CryptoProfile::default(), CryptoProfile::Showcase);
}

#[test]
fn aead_gating() {
    // AES-256-GCM is required by both profiles.
    assert!(CryptoProfile::Showcase.allows_aead(AeadAlg::Aes256Gcm));
    assert!(CryptoProfile::Cnsa20.allows_aead(AeadAlg::Aes256Gcm));
    // ChaCha20-Poly1305 is a showcase-only alternative.
    assert!(CryptoProfile::Showcase.allows_aead(AeadAlg::ChaCha20Poly1305));
    assert!(!CryptoProfile::Cnsa20.allows_aead(AeadAlg::ChaCha20Poly1305));
    // A profile always permits the AEAD it defaults to.
    assert!(CryptoProfile::Showcase.allows_aead(CryptoProfile::Showcase.aead()));
    assert!(CryptoProfile::Cnsa20.allows_aead(CryptoProfile::Cnsa20.aead()));
}
