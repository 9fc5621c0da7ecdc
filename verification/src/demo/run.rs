//! The whole flow in one profile: build a SUIT manifest, sign and verify it, then seal
//! and unseal a payload. The report lets a caller print a per-step trace without the
//! flow doing any I/O.
use vstd::prelude::*;
use crate::crypto::profile::CryptoProfile;
use crate::demo::seal::{
    kem_agrees, payload_recovers, sealed_payload, seal_payload,
    unseal_payload,
};
use crate::demo::sign::{
    lemma_signed_manifest_parses, signed_manifest, sign_manifest, verify_manifest,
    verify_manifest_panics,
};
use crate::wire::alg::AlgId;
use crate::wire::ascii::AsciiStr;
use crate::wire::manifest::{DigestView, Manifest, ManifestView, SuitDigest};

verus! {

/// The observable outcome of one `run`: the encoded size of each artifact and whether
/// each check passed.
#[derive(Debug, Clone, Copy, PartialEq, Eq)]
pub struct RunReport {
    pub profile: CryptoProfile,
    pub signed_len: usize,
    pub verified: bool,
    pub sealed_len: usize,
    pub opened: bool,
}

impl RunReport {
    /// Whether the full round trip succeeded: signature verified and payload opened.
    pub fn ok(&self) -> (r: bool)
        ensures
            r == (self.verified && self.opened),
    {
        self.verified && self.opened
    }
}

/// The class id of the manifest `run` signs: `koffer-device`.
pub open spec fn run_class_id() -> Seq<u8> {
    seq![0x6b, 0x6f, 0x66, 0x66, 0x65, 0x72, 0x2d, 0x64, 0x65, 0x76, 0x69, 0x63, 0x65]
}

/// The manifest `run` signs: version 1, sequence 42, slot 0, and a SHA-256 (`-16`)
/// digest of 32 bytes `0xA5`.
pub open spec fn run_manifest() -> ManifestView {
    ManifestView {
        profile_version: 1,
        sequence: 42,
        class_id: run_class_id(),
        payload_digest: DigestView { alg: -16i64, bytes: Seq::new(32, |i: int| 0xa5u8) },
        target_slot: 0,
        version_string: None,
        encrypted: None,
    }
}

/// The signing entropy `run` uses: 32 bytes `0x11`.
pub open spec fn run_sign_entropy() -> Seq<u8> {
    Seq::new(32, |i: int| 0x11u8)
}

/// The payload `run` seals: `firmware image`.
pub open spec fn run_payload() -> Seq<u8> {
    seq![0x66, 0x69, 0x72, 0x6d, 0x77, 0x61, 0x72, 0x65, 0x20, 0x69, 0x6d, 0x61, 0x67, 0x65]
}

/// The associated data `run` binds: `firmware-update`.
pub open spec fn run_aad() -> Seq<u8> {
    seq![0x66, 0x69, 0x72, 0x6d, 0x77, 0x61, 0x72, 0x65, 0x2d, 0x75, 0x70, 0x64, 0x61, 0x74, 0x65]
}

/// Runs the whole flow under `profile`: build a SUIT manifest, sign and verify it, then
/// seal a payload with `entropy` (96 bytes for the recipient key pair, the rest for the
/// encapsulation) and unseal it. A step whose keys or signature cannot be made counts
/// as failed. The signature always verifies when signing succeeds; the payload opens
/// when sealing succeeds and the KEM's two sides agree.
pub fn run(profile: CryptoProfile, entropy: &[u8]) -> (r: RunReport)
    ensures
        r.profile == profile,
        match signed_manifest(profile, run_manifest(), run_sign_entropy()) {
            Some((cose, _)) => r.verified && r.signed_len == cose.len(),
            None => !r.verified && r.signed_len == 0,
        },
        match sealed_payload(profile, run_payload(), run_aad(), entropy@) {
            Some((cose, dk)) => r.sealed_len == cose.len() && (kem_agrees(profile, entropy@)
                ==> r.opened) && (r.opened ==> payload_recovers(cose, dk, run_aad(), run_payload())),
            None => !r.opened && r.sealed_len == 0,
        },
{
    let class_bytes: [u8; 13] = [0x6b, 0x6f, 0x66, 0x66, 0x65, 0x72, 0x2d, 0x64, 0x65, 0x76, 0x69, 0x63, 0x65];
    assert(class_bytes@ =~= run_class_id());
    let class_id = match AsciiStr::from_bytes(&class_bytes) {
        Ok(a) => a,
        Err(_) => {
            proof {
                assert(false);
            }
            return RunReport { profile, signed_len: 0, verified: false, sealed_len: 0, opened: false };
        },
    };
    let digest_bytes: [u8; 32] = [0xa5; 32];
    assert(digest_bytes@ =~= Seq::new(32, |i: int| 0xa5u8));
    let digest = SuitDigest::new(AlgId::new(-16), &digest_bytes);
    let manifest = Manifest::new(1, 42, class_id, digest, 0);
    assert(manifest@ == run_manifest());
    let sign_entropy: [u8; 32] = [0x11; 32];
    assert(sign_entropy@ =~= run_sign_entropy());
    let (signed_len, verified) = match sign_manifest(profile, &manifest, &sign_entropy) {
        Some((signed, verifying_key)) => {
            let n = signed.len();
            proof {
                lemma_signed_manifest_parses(signed@, verifying_key@, profile, run_manifest(), run_sign_entropy());
            }
            (n, verify_manifest(signed.as_slice(), &verifying_key))
        },
        None => (0, false),
    };
    let payload: [u8; 14] = [0x66, 0x69, 0x72, 0x6d, 0x77, 0x61, 0x72, 0x65, 0x20, 0x69, 0x6d, 0x61, 0x67, 0x65];
    let aad: [u8; 15] = [0x66, 0x69, 0x72, 0x6d, 0x77, 0x61, 0x72, 0x65, 0x2d, 0x75, 0x70, 0x64, 0x61, 0x74, 0x65];
    assert(payload@ =~= run_payload());
    assert(aad@ =~= run_aad());
    let (sealed_len, opened) = match seal_payload(profile, &payload, &aad, entropy) {
        Some((sealed, decapsulation_key)) => {
            let n = sealed.len();
            let opened = match unseal_payload(sealed.as_slice(), &decapsulation_key, &aad) {
                Some(p) => crate::difftest::kat::bytes_eq(p.as_slice(), &payload),
                None => false,
            };
            (n, opened)
        },
        None => (0, false),
    };
    RunReport { profile, signed_len, verified, sealed_len, opened }
}

} // verus!
