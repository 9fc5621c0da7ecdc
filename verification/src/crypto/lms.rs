//! LMS/HSS hash-based signature verification, wrapping the `hbs-lms` crate.
//!
//! Over the hash chain: SHA-256/256 for the showcase profile, SHA-256/192 for the CNSA
//! 2.0 profile.
use vstd::prelude::*;
use core::marker::PhantomData;
use crate::crypto::error::VerifyError;
use crate::crypto::sign::{Signature, Verifier, VerifyingKey};

verus! {

/// The `hbs_lms::Sha256_256` hash chain, declared so that the LMS backend can be named
/// over it; nothing inside it is visible to proofs.
#[verifier::external_type_specification]
#[verifier::external_body]
pub struct ExSha256_256(hbs_lms::Sha256_256);

/// The `hbs_lms::Sha256_192` hash chain, declared likewise.
#[verifier::external_type_specification]
#[verifier::external_body]
pub struct ExSha256_192(hbs_lms::Sha256_192);

/// The LMS/HSS backend over hash chain `H`.
pub struct Lms<H>(PhantomData<H>);

impl<H> Lms<H> {
    /// Creates the backend.
    pub fn new() -> (r: Self) {
        Lms(PhantomData)
    }
}

impl<H> Default for Lms<H> {
    fn default() -> (r: Self) {
        Self::new()
    }
}

// ---- the byte layout the verifier reads ----

/// The big-endian 32-bit number at `o`.
pub open spec fn be32(s: Seq<u8>, o: int) -> int {
    s[o] * 0x100_0000 + s[o + 1] * 0x1_0000 + s[o + 2] * 0x100 + s[o + 3]
}

/// The number of hash chains of the LM-OTS typecode `t` for `n`-byte hashes (RFC 8554
/// Table 1 and NIST SP 800-208), or `-1` for an unknown typecode.
pub open spec fn ots_chains(n: nat, t: int) -> int {
    if t == 1 {
        if n == 32 { 265 } else { 200 }
    } else if t == 2 {
        if n == 32 { 133 } else { 101 }
    } else if t == 3 {
        if n == 32 { 67 } else { 51 }
    } else if t == 4 {
        if n == 32 { 34 } else { 26 }
    } else {
        -1
    }
}

/// The tree height of the LMS typecode `t`, or `-1` for an unknown typecode.
pub open spec fn tree_height(t: int) -> int {
    if t == 5 {
        5
    } else if t == 6 {
        10
    } else if t == 7 {
        15
    } else if t == 8 {
        20
    } else if t == 9 {
        25
    } else {
        -1
    }
}

/// `2^e`.
pub open spec fn exp2(e: nat) -> nat
    decreases e,
{
    if e == 0 {
        1
    } else {
        2 * exp2((e - 1) as nat)
    }
}

/// `floor(lg(x))` for a positive `x` (0 for 0).
pub open spec fn floor_log2(x: nat) -> nat
    decreases x,
{
    if x <= 1 {
        0
    } else {
        1 + floor_log2(x / 2)
    }
}

/// The Winternitz width `w` (bits per chain) of the LM-OTS typecode `t` from 1 to 4:
/// `2^(t - 1)`, that is 1, 2, 4 or 8.
pub open spec fn winternitz_width(t: int) -> nat {
    exp2((t - 1) as nat)
}

/// The number of LM-OTS hash chains for `n`-byte hashes and Winternitz width `w`, as
/// RFC 8554 Appendix B computes it: `u = ceil(8n / w)` chains for the message digest
/// and `v = ceil((floor(lg((2^w - 1) * u)) + 1) / w)` for its checksum.
pub open spec fn lmots_chain_count(n: nat, w: nat) -> nat
    recommends
        w > 0,
{
    let u = (8 * n + w - 1) / (w as int);
    let v = (floor_log2(((exp2(w) - 1) * u) as nat) + 1 + w - 1) / (w as int);
    (u + v) as nat
}

/// The chain counts of the LM-OTS typecodes are those RFC 8554 Appendix B computes:
/// for 24- and 32-byte hashes, typecode `t` from 1 to 4 has Winternitz width
/// `2^(t - 1)` and `u + v` chains; every other typecode is unknown.
pub proof fn lemma_ots_chains_rfc8554(n: nat, t: int)
    requires
        n == 24 || n == 32,
    ensures
        1 <= t <= 4 ==> ots_chains(n, t) == lmots_chain_count(n, winternitz_width(t)),
        !(1 <= t <= 4) ==> ots_chains(n, t) == -1,
{
    reveal_with_fuel(exp2, 9);
    reveal_with_fuel(floor_log2, 14);
    assert(winternitz_width(1) == 1 && winternitz_width(2) == 2);
    assert(winternitz_width(3) == 4 && winternitz_width(4) == 8);
    assert(exp2(1) == 2 && exp2(2) == 4 && exp2(4) == 16 && exp2(8) == 256);
    assert(floor_log2(256) == 8 && floor_log2(384) == 8 && floor_log2(960) == 9);
    assert(floor_log2(8160) == 12);
    assert(floor_log2(192) == 7 && floor_log2(288) == 8 && floor_log2(720) == 9);
    assert(floor_log2(6120) == 12);
    assert(lmots_chain_count(32, winternitz_width(1)) == 265);
    assert(lmots_chain_count(32, winternitz_width(2)) == 133);
    assert(lmots_chain_count(32, winternitz_width(3)) == 67);
    assert(lmots_chain_count(32, winternitz_width(4)) == 34);
    assert(lmots_chain_count(24, winternitz_width(1)) == 200);
    assert(lmots_chain_count(24, winternitz_width(2)) == 101);
    assert(lmots_chain_count(24, winternitz_width(3)) == 51);
    assert(lmots_chain_count(24, winternitz_width(4)) == 26);
}

/// The tree heights of the LMS typecodes are those of RFC 8554 Table 2 (and of their
/// 24-byte counterparts in NIST SP 800-208 as `hbs-lms` numbers them): typecodes 5 to 9
/// have heights 5, 10, 15, 20 and 25, `5 * (t - 4)`; every other typecode is unknown.
pub proof fn lemma_tree_height_rfc8554(t: int)
    ensures
        5 <= t <= 9 ==> tree_height(t) == 5 * (t - 4),
        !(5 <= t <= 9) ==> tree_height(t) == -1,
{
}

/// Every LMS signature with known typecodes whose bytes are all present is read whole:
/// with LM-OTS typecode `t1` (1 to 4) and LMS typecode `t2` (5 to 9) it ends after the
/// leaf number, the LM-OTS typecode, the randomizer and `p` chain hashes (`p` as RFC
/// 8554 Appendix B computes it), the LMS typecode and `5 * (t2 - 4)` path hashes.
pub proof fn lemma_lms_sig_end_known(s: Seq<u8>, o: int, n: nat, t1: int, t2: int)
    requires
        n == 24 || n == 32,
        1 <= t1 <= 4,
        5 <= t2 <= 9,
        0 <= o,
        o + 8 <= s.len(),
        be32(s, o + 4) == t1,
        o + 12 + n + n * lmots_chain_count(n, winternitz_width(t1)) <= s.len(),
        be32(s, o + 8 + n + n * lmots_chain_count(n, winternitz_width(t1))) == t2,
        o + 12 + n + n * lmots_chain_count(n, winternitz_width(t1)) + n * (5 * (t2 - 4)) <= s.len(),
    ensures
        lms_sig_end(s, o, n) == Some(
            o + 12 + n + n * lmots_chain_count(n, winternitz_width(t1)) + n * (5 * (t2 - 4)),
        ),
{
    lemma_ots_chains_rfc8554(n, t1);
    lemma_tree_height_rfc8554(t2);
}

/// Where an LMS signature that starts at `o` ends: the leaf number, the LM-OTS
/// signature (its known typecode, the randomizer and one hash per chain), the known
/// LMS typecode and one hash per tree level; `None` if a typecode is unknown or the
/// bytes run out.
pub open spec fn lms_sig_end(s: Seq<u8>, o: int, n: nat) -> Option<int> {
    if o < 0 || o + 8 > s.len() {
        None
    } else {
        let p = ots_chains(n, be32(s, o + 4));
        if p < 0 {
            None
        } else {
            let o2 = o + 8 + n + n * p;
            if o2 + 4 > s.len() {
                None
            } else {
                let h = tree_height(be32(s, o2));
                if h < 0 || o2 + 4 + n * h > s.len() {
                    None
                } else {
                    Some(o2 + 4 + n * h)
                }
            }
        }
    }
}

/// The length of an LMS public key for `n`-byte hashes: two typecodes, the 16-byte tree
/// identifier and the root hash.
pub open spec fn lms_key_len(n: nat) -> int {
    24 + n as int
}

/// Whether, from `o` on, `k` signed public keys (each an LMS signature followed by a
/// whole LMS public key) and then a final LMS signature are all laid out in `s`.
pub open spec fn hss_chain_ok(s: Seq<u8>, o: int, n: nat, k: nat) -> bool
    decreases k,
{
    match lms_sig_end(s, o, n) {
        None => false,
        Some(e) => if k == 0 {
            true
        } else {
            e + lms_key_len(n) <= s.len() && hss_chain_ok(s, e + lms_key_len(n), n, (k - 1) as nat)
        },
    }
}

/// Whether an HSS signature and public key for `n`-byte hashes are laid out so that the
/// `hbs-lms` verifier reads them without running past their ends: the signature holds
/// a level count of at most 7 (the crate's eight-level limit less the root) and that
/// many signed public keys before the final LMS signature, each with known typecodes;
/// the public key holds the level count and a whole LMS public key.
pub open spec fn lms_layout_ok(signature: Seq<u8>, public_key: Seq<u8>, n: nat) -> bool {
    &&& signature.len() >= 4
    &&& be32(signature, 0) <= 7
    &&& hss_chain_ok(signature, 4, n, be32(signature, 0) as nat)
    &&& public_key.len() >= 4 + lms_key_len(n)
}

/// The big-endian 32-bit number at `o`.
fn read_be32(s: &[u8], o: usize) -> (r: u32)
    requires
        o + 4 <= s@.len(),
    ensures
        r == be32(s@, o as int),
{
    (s[o] as u32) * 0x100_0000 + (s[o + 1] as u32) * 0x1_0000 + (s[o + 2] as u32) * 0x100
        + (s[o + 3] as u32)
}

/// The number of hash chains of an LM-OTS typecode, or `None`.
fn read_ots_chains(n: usize, t: u32) -> (r: Option<usize>)
    requires
        n == 24 || n == 32,
    ensures
        ots_chains(n as nat, t as int) < 0 ==> r is None,
        ots_chains(n as nat, t as int) >= 0 ==> r == Some(ots_chains(n as nat, t as int) as usize),
        1 <= t <= 4 ==> r == Some(lmots_chain_count(n as nat, winternitz_width(t as int)) as usize),
        !(1 <= t <= 4) ==> r is None,
{
    proof {
        lemma_ots_chains_rfc8554(n as nat, t as int);
    }
    if t == 1 {
        Some(if n == 32 { 265 } else { 200 })
    } else if t == 2 {
        Some(if n == 32 { 133 } else { 101 })
    } else if t == 3 {
        Some(if n == 32 { 67 } else { 51 })
    } else if t == 4 {
        Some(if n == 32 { 34 } else { 26 })
    } else {
        None
    }
}

/// The tree height of an LMS typecode, or `None`.
fn read_tree_height(t: u32) -> (r: Option<usize>)
    ensures
        tree_height(t as int) < 0 ==> r is None,
        tree_height(t as int) >= 0 ==> r == Some(tree_height(t as int) as usize),
        5 <= t <= 9 ==> r == Some((5 * (t - 4)) as usize),
        !(5 <= t <= 9) ==> r is None,
{
    if t == 5 {
        Some(5)
    } else if t == 6 {
        Some(10)
    } else if t == 7 {
        Some(15)
    } else if t == 8 {
        Some(20)
    } else if t == 9 {
        Some(25)
    } else {
        None
    }
}

/// Where the LMS signature that starts at `o` ends, as [`lms_sig_end`].
fn find_lms_sig_end(s: &[u8], o: usize, n: usize) -> (r: Option<usize>)
    requires
        o <= s@.len(),
        n == 24 || n == 32,
    ensures
        match lms_sig_end(s@, o as int, n as nat) {
            Some(e) => r == Some(e as usize),
            None => r is None,
        },
{
    if s.len() - o < 8 {
        return None;
    }
    let p = match read_ots_chains(n, read_be32(s, o + 4)) {
        Some(p) => p,
        None => return None,
    };
    let ots_len = n + n * p;
    assert(ots_len == n + n * p) by (nonlinear_arith)
        requires
            p <= 265,
            n <= 32,
            ots_len == n + n * p,
    ;
    assert(n * p <= 32 * 265) by (nonlinear_arith)
        requires
            p <= 265,
            n <= 32,
    ;
    if s.len() - o - 8 < ots_len || s.len() - o - 8 - ots_len < 4 {
        return None;
    }
    let o2 = o + 8 + ots_len;
    let h = match read_tree_height(read_be32(s, o2)) {
        Some(h) => h,
        None => return None,
    };
    assert(n * h <= 32 * 25) by (nonlinear_arith)
        requires
            h <= 25,
            n <= 32,
    ;
    if s.len() - o2 - 4 < n * h {
        return None;
    }
    Some(o2 + 4 + n * h)
}

/// Whether an HSS signature and public key are laid out as [`lms_layout_ok`] says.
fn check_lms_layout(signature: &[u8], public_key: &[u8], n: usize) -> (r: bool)
    requires
        n == 24 || n == 32,
    ensures
        r == lms_layout_ok(signature@, public_key@, n as nat),
{
    if signature.len() < 4 || public_key.len() < 28 + n {
        return false;
    }
    let levels = read_be32(signature, 0);
    if levels > 7 {
        return false;
    }
    let mut k: u32 = levels;
    let mut o: usize = 4;
    while k > 0
        invariant
            n == 24 || n == 32,
            o <= signature@.len(),
            k <= levels <= 7,
            levels == be32(signature@, 0),
            signature@.len() >= 4,
            public_key@.len() >= 28 + n,
            hss_chain_ok(signature@, 4, n as nat, levels as nat) == hss_chain_ok(
                signature@,
                o as int,
                n as nat,
                k as nat,
            ),
        decreases k,
    {
        let e = match find_lms_sig_end(signature, o, n) {
            Some(e) => e,
            None => {
                assert(!hss_chain_ok(signature@, o as int, n as nat, k as nat));
                return false;
            },
        };
        if signature.len() - e < 24 + n {
            assert(!hss_chain_ok(signature@, o as int, n as nat, k as nat));
            return false;
        }
        o = e + 24 + n;
        k = k - 1;
    }
    let last = find_lms_sig_end(signature, o, n);
    assert(hss_chain_ok(signature@, o as int, n as nat, 0) == (lms_sig_end(signature@, o as int, n as nat) is Some));
    last.is_some()
}

/// Whether the HSS/LMS verifier over `Sha256_256` accepts `signature` over `message` under
/// `public_key`; malformed bytes are a rejection.
pub uninterp spec fn lms_sha256_256_accepts(message: Seq<u8>, signature: Seq<u8>, public_key: Seq<u8>) -> bool;

/// HSS/LMS verification (`hbs_lms::verify::<Sha256_256>`): `true` exactly when the crate
/// accepts. The crate slices its input without bounds checks and unwraps unknown
/// signature typecodes, so the call is made only on bytes laid out as its parser reads
/// them ([`lms_layout_ok`] for 32-byte hashes); on those it returns without panicking.
#[verifier::external_body]
fn lms_sha256_256_verify(message: &[u8], signature: &[u8], public_key: &[u8]) -> (r: bool)
    requires
        lms_layout_ok(signature@, public_key@, 32),
    ensures
        r == lms_sha256_256_accepts(message@, signature@, public_key@),
{
    hbs_lms::verify::<hbs_lms::Sha256_256>(message, signature, public_key).is_ok()
}

impl Verifier for Lms<hbs_lms::Sha256_256> {
    open spec fn verdict(&self, key: Seq<u8>, message: Seq<u8>, signature: Seq<u8>) -> Result<(), VerifyError> {
        if lms_layout_ok(signature, key, 32) && lms_sha256_256_accepts(message, signature, key) {
            Ok(())
        } else {
            Err(VerifyError::VerificationFailed)
        }
    }

    /// Any failure (bad signature, bytes not laid out as an HSS signature and key, or a
    /// hash typecode that does not match the chain) is a verification failure; malformed
    /// bytes are rejected before they reach the crate's parser.
    fn verify(&self, key: &VerifyingKey, message: &[u8], signature: &Signature) -> (r: Result<(), VerifyError>) {
        let sig = signature.as_slice();
        let public_key = key.as_slice();
        if check_lms_layout(sig, public_key, 32) && lms_sha256_256_verify(message, sig, public_key) {
            Ok(())
        } else {
            Err(VerifyError::VerificationFailed)
        }
    }
}

/// Whether the HSS/LMS verifier over `Sha256_192` accepts `signature` over `message` under
/// `public_key`; malformed bytes are a rejection.
pub uninterp spec fn lms_sha256_192_accepts(message: Seq<u8>, signature: Seq<u8>, public_key: Seq<u8>) -> bool;

/// HSS/LMS verification (`hbs_lms::verify::<Sha256_192>`): `true` exactly when the crate
/// accepts. The crate slices its input without bounds checks and unwraps unknown
/// signature typecodes, so the call is made only on bytes laid out as its parser reads
/// them ([`lms_layout_ok`] for 24-byte hashes); on those it returns without panicking.
#[verifier::external_body]
fn lms_sha256_192_verify(message: &[u8], signature: &[u8], public_key: &[u8]) -> (r: bool)
    requires
        lms_layout_ok(signature@, public_key@, 24),
    ensures
        r == lms_sha256_192_accepts(message@, signature@, public_key@),
{
    hbs_lms::verify::<hbs_lms::Sha256_192>(message, signature, public_key).is_ok()
}

impl Verifier for Lms<hbs_lms::Sha256_192> {
    open spec fn verdict(&self, key: Seq<u8>, message: Seq<u8>, signature: Seq<u8>) -> Result<(), VerifyError> {
        if lms_layout_ok(signature, key, 24) && lms_sha256_192_accepts(message, signature, key) {
            Ok(())
        } else {
            Err(VerifyError::VerificationFailed)
        }
    }

    /// Any failure (bad signature, bytes not laid out as an HSS signature and key, or a
    /// hash typecode that does not match the chain) is a verification failure; malformed
    /// bytes are rejected before they reach the crate's parser.
    fn verify(&self, key: &VerifyingKey, message: &[u8], signature: &Signature) -> (r: Result<(), VerifyError>) {
        let sig = signature.as_slice();
        let public_key = key.as_slice();
        if check_lms_layout(sig, public_key, 24) && lms_sha256_192_verify(message, sig, public_key) {
            Ok(())
        } else {
            Err(VerifyError::VerificationFailed)
        }
    }
}

} // verus!
