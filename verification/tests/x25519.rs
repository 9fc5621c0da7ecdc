use koffer::crypto::x25519::{dh, keypair_from_entropy};

#[test]
fn two_parties_agree() {
    let (a_secret, a_public) = keypair_from_entropy(&[0x11; 32]);
    let (b_secret, b_public) = keypair_from_entropy(&[0x22; 32]);
    // Each side combines its own secret with the peer's public key.
    assert_eq!(dh(&a_secret, &b_public), dh(&b_secret, &a_public));
}

#[test]
fn distinct_entropy_yields_distinct_keys() {
    let (_, a_public) = keypair_from_entropy(&[0x11; 32]);
    let (_, b_public) = keypair_from_entropy(&[0x22; 32]);
    assert_ne!(a_public, b_public);
}

#[test]
fn the_secret_is_the_entropy_and_the_base_point_is_nine() {
    let (secret, _) = keypair_from_entropy(&[0x33; 32]);
    assert_eq!(secret, [0x33; 32]);
    // The public key is the shared secret with the base point u = 9.
    let mut base = [0u8; 32];
    base[0] = 9;
    let (s, public) = keypair_from_entropy(&[0x44; 32]);
    assert_eq!(dh(&s, &base), public);
}
