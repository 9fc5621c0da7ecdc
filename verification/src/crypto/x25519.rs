//! X25519 Diffie-Hellman key agreement, wrapping `x25519-dalek`.
//!
//! Each side holds a 32-byte secret and a 32-byte public key, and one side combines its
//! secret with the other's public key to reach the same 32-byte shared secret. This is
//! an internal helper for the hybrid KEM: X25519 alone is classical, not post-quantum.
//! Secrets are built from caller-supplied entropy.
use vstd::prelude::*;
use x25519_dalek::{PublicKey, StaticSecret};

verus! {

/// The X25519 public key for a secret: the clamped scalar times the base point.
pub uninterp spec fn x25519_public(secret: Seq<u8>) -> Seq<u8>;

/// The X25519 shared secret of `secret` with the peer's public key `peer`.
pub uninterp spec fn x25519_shared(secret: Seq<u8>, peer: Seq<u8>) -> Seq<u8>;

/// The public key of a secret (`PublicKey::from(&StaticSecret::from(secret))`).
#[verifier::external_body]
fn public_key_of(secret: &[u8; 32]) -> (r: [u8; 32])
    ensures
        r@ == x25519_public(secret@),
{
    PublicKey::from(&StaticSecret::from(*secret)).to_bytes()
}

/// Derives an X25519 keypair from 32 bytes of entropy, returning (secret, public).
/// `StaticSecret::from` keeps the bytes as they are, so the secret is the entropy.
pub fn keypair_from_entropy(entropy: &[u8; 32]) -> (r: ([u8; 32], [u8; 32]))
    ensures
        r.0@ == entropy@,
        r.1@ == x25519_public(entropy@),
{
    let secret: [u8; 32] = *entropy;
    let public = public_key_of(&secret);
    (secret, public)
}

/// The X25519 shared secret (`StaticSecret::diffie_hellman` of the secret with the
/// peer's `PublicKey`). Both sides reach the same secret: when the peer's public key is
/// that of a 32-byte secret, the peer combining that secret with our public key gets
/// our result (the crate's documentation shows Alice's and Bob's secrets equal; both
/// are the clamped scalars' product times the base point).
#[verifier::external_body]
fn diffie_hellman(secret: &[u8; 32], peer_public: &[u8; 32]) -> (r: [u8; 32])
    ensures
        r@ == x25519_shared(secret@, peer_public@),
        forall|peer_secret: Seq<u8>|
            peer_secret.len() == 32 && peer_public@ == x25519_public(peer_secret) ==> r@
                == #[trigger] x25519_shared(peer_secret, x25519_public(secret@)),
{
    StaticSecret::from(*secret).diffie_hellman(&PublicKey::from(*peer_public)).to_bytes()
}

/// X25519 Diffie-Hellman: combines our `secret` with a `peer_public` key to reach the
/// shared secret both sides agree on: the peer, combining its secret with our public
/// key, reaches the same bytes.
pub fn dh(secret: &[u8; 32], peer_public: &[u8; 32]) -> (r: [u8; 32])
    ensures
        r@ == x25519_shared(secret@, peer_public@),
        forall|peer_secret: Seq<u8>|
            peer_secret.len() == 32 && peer_public@ == x25519_public(peer_secret) ==> r@
                == #[trigger] x25519_shared(peer_secret, x25519_public(secret@)),
{
    diffie_hellman(secret, peer_public)
}

} // verus!
