//! A canonical CBOR (RFC 8949) layer: the item heads that every value starts with,
//! and the primitive values (integers, booleans, byte and text strings) that the
//! protocol types are built from.
//!
//! Encoding always uses the shortest head for an argument. Decoding accepts any
//! head width, as long as the argument fits the requested type.
use vstd::prelude::*;

verus! {

/// The input is not a well-formed encoding of the expected value.
#[derive(Debug, Clone, Copy, PartialEq, Eq, Structural)]
pub struct DecodeError;

/// `256^k`.
pub open spec fn pow256(k: nat) -> nat
    decreases k,
{
    if k == 0 {
        1
    } else {
        256 * pow256((k - 1) as nat)
    }
}

/// The unsigned integer whose big-endian bytes are `b`.
pub open spec fn be_value(b: Seq<u8>) -> nat
    decreases b.len(),
{
    if b.len() == 0 {
        0
    } else {
        be_value(b.drop_last()) * 256 + b.last() as nat
    }
}

/// The `w` big-endian bytes of `n` (its low `8 * w` bits).
pub open spec fn be_bytes(n: nat, w: nat) -> Seq<u8>
    decreases w,
{
    if w == 0 {
        Seq::empty()
    } else {
        be_bytes(n / 256, (w - 1) as nat).push((n % 256) as u8)
    }
}

/// Every power of 256 is positive.
pub proof fn lemma_pow256_pos(k: nat)
    ensures
        pow256(k) >= 1,
    decreases k,
{
    if k > 0 {
        lemma_pow256_pos((k - 1) as nat);
    }
}

/// Writing `n` in `w` big-endian bytes and reading them back gives `n`.
pub proof fn lemma_be_roundtrip(n: nat, w: nat)
    requires
        n < pow256(w),
    ensures
        be_bytes(n, w).len() == w,
        be_value(be_bytes(n, w)) == n,
    decreases w,
{
    if w > 0 {
        let p = pow256((w - 1) as nat);
        assert(n / 256 < p) by (nonlinear_arith)
            requires
                n < 256 * p,
        ;
        lemma_be_roundtrip(n / 256, (w - 1) as nat);
        let b = be_bytes(n, w);
        assert(b.drop_last() =~= be_bytes(n / 256, (w - 1) as nat));
        assert((n / 256) * 256 + n % 256 == n) by (nonlinear_arith);
    }
}

/// A big-endian value of `w` bytes is below `256^w`.
pub proof fn lemma_be_value_bound(b: Seq<u8>)
    ensures
        be_value(b) < pow256(b.len()),
    decreases b.len(),
{
    if b.len() > 0 {
        lemma_be_value_bound(b.drop_last());
        let v = be_value(b.drop_last());
        let p = pow256(b.drop_last().len());
        let l = b.last();
        assert(v * 256 + l < 256 * p) by (nonlinear_arith)
            requires
                v < p,
                l < 256,
        ;
    }
}

/// How many argument bytes follow the initial byte in the shortest head for `arg`.
pub open spec fn head_width(arg: u64) -> nat {
    if arg < 24 {
        0
    } else if arg < 0x100 {
        1
    } else if arg < 0x1_0000 {
        2
    } else if arg < 0x1_0000_0000 {
        4
    } else {
        8
    }
}

/// The 5-bit additional information for the shortest head for `arg`.
pub open spec fn head_info(arg: u64) -> int {
    if arg < 24 {
        arg as int
    } else if arg < 0x100 {
        24
    } else if arg < 0x1_0000 {
        25
    } else if arg < 0x1_0000_0000 {
        26
    } else {
        27
    }
}

/// The shortest head of major type `major` carrying `arg` (RFC 8949, section 3).
pub open spec fn ser_head(major: u8, arg: u64) -> Seq<u8> {
    seq![(major * 32 + head_info(arg)) as u8] + be_bytes(arg as nat, head_width(arg))
}

/// The number of argument bytes that additional information `info` (below 28) announces.
pub open spec fn arg_width(info: int) -> int {
    if info < 24 {
        0
    } else if info == 24 {
        1
    } else if info == 25 {
        2
    } else if info == 26 {
        4
    } else {
        8
    }
}

/// Reads a head of any width at the front of `s`: its major type, its argument and
/// its length. `None` at the end of the input, or for additional information 28 to 31
/// (reserved values and the indefinite-length marker).
#[verifier::opaque]
pub open spec fn parse_head(s: Seq<u8>) -> Option<(u8, u64, int)> {
    if s.len() == 0 {
        None
    } else {
        let info = s[0] % 32;
        let w = arg_width(info as int);
        if info >= 28 || s.len() < 1 + w {
            None
        } else if info < 24 {
            Some(((s[0] / 32) as u8, info as u64, 1))
        } else {
            Some(((s[0] / 32) as u8, be_value(s.subrange(1, 1 + w)) as u64, 1 + w))
        }
    }
}

proof fn lemma_pow256_values()
    ensures
        pow256(0) == 1,
        pow256(1) == 0x100,
        pow256(2) == 0x1_0000,
        pow256(4) == 0x1_0000_0000,
        pow256(8) == 0x1_0000_0000_0000_0000,
{
    reveal_with_fuel(pow256, 9);
}

/// The shortest head reads back as the major type and argument it was written with,
/// whatever follows it.
pub proof fn lemma_head_roundtrip(major: u8, arg: u64, rest: Seq<u8>)
    requires
        major < 8,
    ensures
        ser_head(major, arg).len() == 1 + head_width(arg),
        parse_head(ser_head(major, arg) + rest) == Some((major, arg, 1 + head_width(arg) as int)),
{
    reveal(parse_head);
    lemma_pow256_values();
    let w = head_width(arg);
    if w > 0 {
        lemma_be_roundtrip(arg as nat, w);
    }
    let h = ser_head(major, arg);
    let s = h + rest;
    let b0 = (major * 32 + head_info(arg)) as u8;
    assert(s[0] == b0);
    assert(b0 % 32 == head_info(arg));
    assert(b0 / 32 == major);
    if w > 0 {
        assert(s.subrange(1, 1 + w as int) =~= be_bytes(arg as nat, w));
    }
}


proof fn lemma_pow256_mono(a: nat, b: nat)
    requires
        a <= b,
    ensures
        pow256(a) <= pow256(b),
    decreases b,
{
    if a < b {
        lemma_pow256_mono(a, (b - 1) as nat);
        lemma_pow256_pos((b - 1) as nat);
    }
}

/// Appends the shortest head of major type `major` carrying `arg` to `out`.
pub fn push_head(out: &mut Vec<u8>, major: u8, arg: u64)
    requires
        major < 8,
    ensures
        final(out)@ == old(out)@ + ser_head(major, arg),
{
    let base: u8 = major * 32;
    let ghost start = out@;
    proof {
        reveal_with_fuel(be_bytes, 9);
    }
    if arg < 24 {
        out.push(base + arg as u8);
    } else if arg < 0x100 {
        out.push(base + 24);
        out.push(arg as u8);
    } else if arg < 0x1_0000 {
        out.push(base + 25);
        out.push((arg / 0x100) as u8);
        out.push((arg % 0x100) as u8);
    } else if arg < 0x1_0000_0000 {
        let d1 = arg / 256;
        let d2 = d1 / 256;
        let d3 = d2 / 256;
        out.push(base + 26);
        out.push((d3 % 256) as u8);
        out.push((d2 % 256) as u8);
        out.push((d1 % 256) as u8);
        out.push((arg % 256) as u8);
    } else {
        let d1 = arg / 256;
        let d2 = d1 / 256;
        let d3 = d2 / 256;
        let d4 = d3 / 256;
        let d5 = d4 / 256;
        let d6 = d5 / 256;
        let d7 = d6 / 256;
        out.push(base + 27);
        out.push((d7 % 256) as u8);
        out.push((d6 % 256) as u8);
        out.push((d5 % 256) as u8);
        out.push((d4 % 256) as u8);
        out.push((d3 % 256) as u8);
        out.push((d2 % 256) as u8);
        out.push((d1 % 256) as u8);
        out.push((arg % 256) as u8);
    }
    assert(out@ =~= start + ser_head(major, arg));
}

/// Reads a head at `pos`: its major type, its argument, and the position after it.
pub fn read_head(s: &[u8], pos: usize) -> (r: Result<(u8, u64, usize), DecodeError>)
    requires
        pos <= s@.len(),
    ensures
        match parse_head(s@.skip(pos as int)) {
            None => r is Err,
            Some((major, arg, n)) => r matches Ok((m2, a2, p)) && m2 == major && a2 == arg && p == pos + n && pos <= p <= s@.len(),
        },
{
    reveal(parse_head);
    let ghost rest = s@.skip(pos as int);
    if pos >= s.len() {
        return Err(DecodeError);
    }
    let b = s[pos];
    let info = b % 32;
    let major = b / 32;
    if info >= 28 {
        return Err(DecodeError);
    }
    if info < 24 {
        return Ok((major, info as u64, pos + 1));
    }
    let w: usize = if info == 24 {
        1
    } else if info == 25 {
        2
    } else if info == 26 {
        4
    } else {
        8
    };
    if s.len() - pos - 1 < w {
        return Err(DecodeError);
    }
    let len = s.len();
    let mut acc: u64 = 0;
    let mut k: usize = 0;
    assert(s@.subrange(pos + 1, pos + 1) =~= Seq::<u8>::empty());
    proof {
        lemma_pow256_values();
    }
    while k < w
        invariant
            k <= w <= 8,
            len == s@.len(),
            pos + 1 + w <= s@.len(),
            acc == be_value(s@.subrange(pos + 1, pos + 1 + k)),
            acc < pow256(k as nat),
            pow256(8) == 0x1_0000_0000_0000_0000,
        decreases w - k,
    {
        let byte = s[pos + 1 + k];
        proof {
            let p = pow256(k as nat);
            lemma_pow256_mono((k + 1) as nat, 8);
            assert(acc * 256 + byte < 256 * p) by (nonlinear_arith)
                requires
                    acc < p,
                    byte < 256,
            ;
            assert(s@.subrange(pos + 1, pos + 1 + k + 1).drop_last() =~= s@.subrange(
                pos + 1,
                pos + 1 + k,
            ));
        }
        acc = acc * 256 + byte as u64;
        k = k + 1;
    }
    assert(rest.subrange(1, 1 + w as int) =~= s@.subrange(pos + 1, pos + 1 + w));
    Ok((major, acc, pos + 1 + w))
}


/// Major types (RFC 8949, section 3.1).
pub const MAJOR_UNSIGNED: u8 = 0;
pub const MAJOR_NEGATIVE: u8 = 1;
pub const MAJOR_BYTES: u8 = 2;
pub const MAJOR_TEXT: u8 = 3;
pub const MAJOR_ARRAY: u8 = 4;
pub const MAJOR_MAP: u8 = 5;

/// The simple values `false`, `true` and `null`.
pub const FALSE: u8 = 0xf4;
pub const TRUE: u8 = 0xf5;
pub const NULL: u8 = 0xf6;

// ---- unsigned integers ----

/// Reads an unsigned integer no greater than `max`.
pub open spec fn parse_uint(s: Seq<u8>, max: u64) -> Option<(u64, int)> {
    match parse_head(s) {
        Some((m, a, n)) => if m == MAJOR_UNSIGNED && a <= max {
            Some((a, n))
        } else {
            None
        },
        None => None,
    }
}

/// An unsigned integer: a head of major type 0.
pub open spec fn ser_uint(v: u64) -> Seq<u8> {
    ser_head(MAJOR_UNSIGNED, v)
}

/// Reading an unsigned integer (within the bound) back from its encoding gives the same value and consumes
/// exactly the encoding, whatever bytes follow.
pub proof fn lemma_uint_roundtrip(v: u64, max: u64, rest: Seq<u8>)
    requires
        v <= max,
    ensures
        parse_uint(ser_uint(v) + rest, max) == Some((v, ser_uint(v).len() as int)),
{
    lemma_head_roundtrip(MAJOR_UNSIGNED, v, rest);
}

/// Appends `v` as an unsigned integer.
pub fn push_uint(out: &mut Vec<u8>, v: u64)
    ensures
        final(out)@ == old(out)@ + ser_uint(v),
{
    push_head(out, MAJOR_UNSIGNED, v);
}

/// Reads an unsigned integer no greater than `max` at `pos`.
pub fn read_uint(s: &[u8], pos: usize, max: u64) -> (r: Result<(u64, usize), DecodeError>)
    requires
        pos <= s@.len(),
    ensures
        match parse_uint(s@.skip(pos as int), max) {
            None => r is Err,
            Some((v, n)) => r matches Ok((v2, p)) && v2 == v && p == pos + n && pos <= p <= s@.len(),
        },
{
    let (m, a, p) = read_head(s, pos)?;
    if m == MAJOR_UNSIGNED && a <= max {
        Ok((a, p))
    } else {
        Err(DecodeError)
    }
}

/// Reads an unsigned integer no greater than 255 at `pos`.
pub fn read_u8(s: &[u8], pos: usize) -> (r: Result<(u8, usize), DecodeError>)
    requires
        pos <= s@.len(),
    ensures
        match parse_uint(s@.skip(pos as int), 0xff) {
            None => r is Err,
            Some((v, n)) => r matches Ok((v2, p)) && v2 == v && p == pos + n && pos <= p <= s@.len(),
        },
{
    let (v, p) = read_uint(s, pos, 0xff)?;
    Ok((v as u8, p))
}

// ---- signed integers ----

/// Reads an integer (major type 0 or 1) that fits an `i64`.
pub open spec fn parse_i64(s: Seq<u8>) -> Option<(i64, int)> {
    match parse_head(s) {
        Some((m, a, n)) => if m == MAJOR_UNSIGNED && a <= i64::MAX {
            Some((a as i64, n))
        } else if m == MAJOR_NEGATIVE && a <= i64::MAX {
            Some(((-1 - a) as i64, n))
        } else {
            None
        },
        None => None,
    }
}

/// A signed integer: major type 0 for `v >= 0`, else major type 1 carrying `-1 - v`.
pub open spec fn ser_i64(v: i64) -> Seq<u8> {
    if v >= 0 {
        ser_head(MAJOR_UNSIGNED, v as u64)
    } else {
        ser_head(MAJOR_NEGATIVE, (-1 - v) as u64)
    }
}

/// Reading a signed integer back from its encoding gives the same value and consumes
/// exactly the encoding, whatever bytes follow.
pub proof fn lemma_i64_roundtrip(v: i64, rest: Seq<u8>)
    ensures
        parse_i64(ser_i64(v) + rest) == Some((v, ser_i64(v).len() as int)),
{
    if v >= 0 {
        lemma_head_roundtrip(MAJOR_UNSIGNED, v as u64, rest);
    } else {
        lemma_head_roundtrip(MAJOR_NEGATIVE, (-1 - v) as u64, rest);
    }
}

/// Appends `v` as a signed integer.
pub fn push_i64(out: &mut Vec<u8>, v: i64)
    ensures
        final(out)@ == old(out)@ + ser_i64(v),
{
    if v >= 0 {
        push_head(out, MAJOR_UNSIGNED, v as u64);
    } else {
        push_head(out, MAJOR_NEGATIVE, (-1 - v) as u64);
    }
}

/// Reads a signed integer that fits an `i64` at `pos`.
pub fn read_i64(s: &[u8], pos: usize) -> (r: Result<(i64, usize), DecodeError>)
    requires
        pos <= s@.len(),
    ensures
        match parse_i64(s@.skip(pos as int)) {
            None => r is Err,
            Some((v, n)) => r matches Ok((v2, p)) && v2 == v && p == pos + n && pos <= p <= s@.len(),
        },
{
    let (m, a, p) = read_head(s, pos)?;
    if m == MAJOR_UNSIGNED && a <= 0x7fff_ffff_ffff_ffff {
        Ok((a as i64, p))
    } else if m == MAJOR_NEGATIVE && a <= 0x7fff_ffff_ffff_ffff {
        Ok((-1 - a as i64, p))
    } else {
        Err(DecodeError)
    }
}

// ---- booleans ----

/// Reads the simple value `false` or `true`.
pub open spec fn parse_bool(s: Seq<u8>) -> Option<(bool, int)> {
    if s.len() > 0 && s[0] == FALSE {
        Some((false, 1))
    } else if s.len() > 0 && s[0] == TRUE {
        Some((true, 1))
    } else {
        None
    }
}

/// The simple value for `b`.
pub open spec fn ser_bool(b: bool) -> Seq<u8> {
    seq![if b { TRUE } else { FALSE }]
}

/// Reading a boolean back from its encoding gives the same value and consumes
/// exactly the encoding, whatever bytes follow.
pub proof fn lemma_bool_roundtrip(b: bool, rest: Seq<u8>)
    ensures
        parse_bool(ser_bool(b) + rest) == Some((b, 1int)),
{
    assert((ser_bool(b) + rest)[0] == ser_bool(b)[0]);
}

/// Appends `b` as a simple value.
pub fn push_bool(out: &mut Vec<u8>, b: bool)
    ensures
        final(out)@ == old(out)@ + ser_bool(b),
{
    let ghost start = out@;
    out.push(if b { TRUE } else { FALSE });
    assert(out@ =~= start + ser_bool(b));
}

/// Reads `false` or `true` at `pos`.
pub fn read_bool(s: &[u8], pos: usize) -> (r: Result<(bool, usize), DecodeError>)
    requires
        pos <= s@.len(),
    ensures
        match parse_bool(s@.skip(pos as int)) {
            None => r is Err,
            Some((v, n)) => r matches Ok((v2, p)) && v2 == v && p == pos + n && pos <= p <= s@.len(),
        },
{
    if pos >= s.len() {
        return Err(DecodeError);
    }
    if s[pos] == FALSE {
        Ok((false, pos + 1))
    } else if s[pos] == TRUE {
        Ok((true, pos + 1))
    } else {
        Err(DecodeError)
    }
}

// ---- byte and text strings ----

/// Reads a definite-length string of major type `major` (bytes or text): its content.
pub open spec fn parse_string(s: Seq<u8>, major: u8) -> Option<(Seq<u8>, int)> {
    match parse_head(s) {
        Some((m, a, n)) => if m == major && n + a <= s.len() {
            Some((s.subrange(n, n + a), n + a))
        } else {
            None
        },
        None => None,
    }
}

/// A definite-length string of major type `major`: the head, then the content.
pub open spec fn ser_string(major: u8, content: Seq<u8>) -> Seq<u8> {
    ser_head(major, content.len() as u64) + content
}

/// Reads a definite-length byte string: its content.
pub open spec fn parse_bytes(s: Seq<u8>) -> Option<(Seq<u8>, int)> {
    parse_string(s, MAJOR_BYTES)
}

/// A definite-length byte string.
pub open spec fn ser_bytes(content: Seq<u8>) -> Seq<u8> {
    ser_string(MAJOR_BYTES, content)
}

/// Reading a string back from its encoding gives the same value and consumes
/// exactly the encoding, whatever bytes follow.
pub proof fn lemma_string_roundtrip(major: u8, content: Seq<u8>, rest: Seq<u8>)
    requires
        major < 8,
        content.len() <= u64::MAX,
    ensures
        parse_string(ser_string(major, content) + rest, major) == Some(
            (content, ser_string(major, content).len() as int),
        ),
{
    let h = ser_head(major, content.len() as u64);
    lemma_head_roundtrip(major, content.len() as u64, content + rest);
    assert(ser_string(major, content) + rest =~= h + (content + rest));
    assert((h + (content + rest)).subrange(h.len() as int, (h.len() + content.len()) as int) =~= content);
}

/// Appends the bytes of `b` to `out`.
pub fn push_raw(out: &mut Vec<u8>, b: &[u8])
    ensures
        final(out)@ == old(out)@ + b@,
{
    let ghost start = out@;
    let mut i: usize = 0;
    while i < b.len()
        invariant
            i <= b@.len(),
            out@ == start + b@.subrange(0, i as int),
        decreases b@.len() - i,
    {
        out.push(b[i]);
        i = i + 1;
        assert(out@ =~= start + b@.subrange(0, i as int));
    }
    assert(b@.subrange(0, b@.len() as int) =~= b@);
}

/// Appends `content` as a definite-length string of major type `major`.
pub fn push_string(out: &mut Vec<u8>, major: u8, content: &[u8])
    requires
        major < 8,
    ensures
        final(out)@ == old(out)@ + ser_string(major, content@),
        content@.len() <= u64::MAX,
{
    let ghost start = out@;
    push_head(out, major, content.len() as u64);
    push_raw(out, content);
    assert(out@ =~= start + ser_string(major, content@));
}

/// Reads a definite-length string of major type `major` at `pos`, borrowing its content.
pub fn read_string<'b>(s: &'b [u8], pos: usize, major: u8) -> (r: Result<(&'b [u8], usize), DecodeError>)
    requires
        pos <= s@.len(),
    ensures
        match parse_string(s@.skip(pos as int), major) {
            None => r is Err,
            Some((c, n)) => r matches Ok((x, p)) && x@ == c && p == pos + n && pos <= p <= s@.len(),
        },
{
    let ghost rest = s@.skip(pos as int);
    let (m, a, p) = read_head(s, pos)?;
    if m != major || a > (s.len() - p) as u64 {
        return Err(DecodeError);
    }
    let end = p + a as usize;
    let content = &s[p..end];
    assert(content@ =~= rest.subrange(p - pos, p - pos + a));
    Ok((content, end))
}

// ---- arrays and maps ----

/// Reads an array or map head of major type `major`: `Some(len)` for a definite
/// length, `None` for the indefinite-length marker.
pub open spec fn parse_container(s: Seq<u8>, major: u8) -> Option<(Option<u64>, int)> {
    if s.len() > 0 && s[0] == major * 32 + 31 {
        Some((None, 1))
    } else {
        match parse_head(s) {
            Some((m, a, n)) => if m == major {
                Some((Some(a), n))
            } else {
                None
            },
            None => None,
        }
    }
}

/// Reading an array or map head back from its encoding gives the same length and
/// consumes exactly the head, whatever bytes follow.
pub proof fn lemma_container_roundtrip(major: u8, len: u64, rest: Seq<u8>)
    requires
        major < 8,
    ensures
        parse_container(ser_head(major, len) + rest, major) == Some(
            (Some(len), ser_head(major, len).len() as int),
        ),
{
    lemma_head_roundtrip(major, len, rest);
    let s = ser_head(major, len) + rest;
    assert(s[0] % 32 == head_info(len));
}

/// Reads an array or map head of major type `major` at `pos`: `Some(len)` for a
/// definite length, `None` for the indefinite-length marker.
pub fn read_container(s: &[u8], pos: usize, major: u8) -> (r: Result<(Option<u64>, usize), DecodeError>)
    requires
        pos <= s@.len(),
        major < 8,
    ensures
        match parse_container(s@.skip(pos as int), major) {
            None => r is Err,
            Some((l, n)) => r matches Ok((l2, p)) && l2 == l && p == pos + n && pos <= p <= s@.len(),
        },
{
    if pos < s.len() && s[pos] == major * 32 + 31 {
        return Ok((None, pos + 1));
    }
    let (m, a, p) = read_head(s, pos)?;
    if m == major {
        Ok((Some(a), p))
    } else {
        Err(DecodeError)
    }
}

/// Reads a definite-length array or map head that announces exactly `len` items.
pub open spec fn parse_exact(s: Seq<u8>, major: u8, len: u64) -> Option<int> {
    match parse_container(s, major) {
        Some((Some(l), n)) => if l == len {
            Some(n)
        } else {
            None
        },
        _ => None,
    }
}

/// Reads a definite-length array or map head at `pos` that announces exactly `len`
/// items; any other length, or an indefinite one, is an error.
pub fn read_exact(s: &[u8], pos: usize, major: u8, len: u64) -> (r: Result<usize, DecodeError>)
    requires
        pos <= s@.len(),
        major < 8,
    ensures
        match parse_exact(s@.skip(pos as int), major, len) {
            None => r is Err,
            Some(n) => r matches Ok(p) && p == pos + n && pos <= p <= s@.len(),
        },
{
    match read_container(s, pos, major)? {
        (Some(l), p) => if l == len {
            Ok(p)
        } else {
            Err(DecodeError)
        },
        (None, _) => Err(DecodeError),
    }
}


/// Adds `k` to the length that a parse result reports.
pub open spec fn shift<A>(r: Option<(A, int)>, k: int) -> Option<(A, int)> {
    match r {
        Some((v, n)) => Some((v, n + k)),
        None => None,
    }
}

/// Skipping `a` bytes and then `b` bytes skips `a + b` bytes.
pub proof fn lemma_skip_skip(s: Seq<u8>, a: int, b: int)
    requires
        0 <= a,
        0 <= b,
        a + b <= s.len(),
    ensures
        s.skip(a).skip(b) == s.skip(a + b),
{
    assert(s.skip(a).skip(b) =~= s.skip(a + b));
}

/// What a parse reads of `s` is what it reads of `s` with a suffix appended.
pub proof fn lemma_concat_skip(a: Seq<u8>, b: Seq<u8>, n: int)
    requires
        0 <= n <= a.len(),
    ensures
        (a + b).skip(n) == a.skip(n) + b,
{
    assert((a + b).skip(n) =~= a.skip(n) + b);
}

/// Skipping a prefix leaves what follows it.
pub proof fn lemma_skip_prefix(a: Seq<u8>, b: Seq<u8>)
    ensures
        (a + b).skip(a.len() as int) == b,
{
    assert((a + b).skip(a.len() as int) =~= b);
}

/// A head is at most nine bytes long.
pub proof fn lemma_head_len(major: u8, arg: u64)
    requires
        major < 8,
    ensures
        1 <= ser_head(major, arg).len() <= 9,
{
    lemma_head_roundtrip(major, arg, Seq::empty());
}

} // verus!
