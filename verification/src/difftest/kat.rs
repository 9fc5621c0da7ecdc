//! Parser for the `name = hex` known-answer-test files.
//!
//! A blank line ends a record; a `# tcId N:` comment sets the next record's test-case
//! id; other `#` lines are ignored; every other line is `name = hex`. Lines are split at
//! `\n`, and each is trimmed of Unicode whitespace (which also drops a `\r` before the
//! `\n`).
use vstd::prelude::*;
use vstd::string::StringSliceAdditionalSpecFns;
use crate::crypto::bytes::hex_digit;

verus! {

/// One record: its test-case id (from the preceding `# tcId N:` comment, if any) and
/// its named, hex-decoded fields in file order.
pub struct Record {
    tc_id: Option<u32>,
    fields: Vec<(Vec<u8>, Vec<u8>)>,
}

/// The model of a [`Record`]: field names and values as bytes.
pub struct RecordView {
    pub tc_id: Option<u32>,
    pub fields: Seq<(Seq<u8>, Seq<u8>)>,
}

/// The bytes of each field name and value.
pub open spec fn fields_view(fields: Seq<(Vec<u8>, Vec<u8>)>) -> Seq<(Seq<u8>, Seq<u8>)> {
    Seq::new(fields.len(), |i: int| (fields[i].0@, fields[i].1@))
}

impl View for Record {
    type V = RecordView;

    closed spec fn view(&self) -> RecordView {
        RecordView { tc_id: self.tc_id, fields: fields_view(self.fields@) }
    }
}

/// The value of the first field named `name`, if any.
pub open spec fn first_field(fields: Seq<(Seq<u8>, Seq<u8>)>, name: Seq<u8>) -> Option<Seq<u8>>
    decreases fields.len(),
{
    if fields.len() == 0 {
        None
    } else if fields[0].0 == name {
        Some(fields[0].1)
    } else {
        first_field(fields.drop_first(), name)
    }
}

/// Whether two byte strings are equal.
pub(crate) fn bytes_eq(a: &[u8], b: &[u8]) -> (r: bool)
    ensures
        r == (a@ == b@),
{
    if a.len() != b.len() {
        return false;
    }
    let mut i: usize = 0;
    while i < a.len()
        invariant
            a@.len() == b@.len(),
            i <= a@.len(),
            forall|j: int| 0 <= j < i ==> a@[j] == b@[j],
        decreases a@.len() - i,
    {
        if a[i] != b[i] {
            return false;
        }
        i = i + 1;
    }
    assert(a@ =~= b@);
    true
}

impl Record {
    /// The record's test-case id, or `None` if it had no `# tcId N:` comment.
    pub fn tc_id(&self) -> (r: Option<u32>)
        ensures
            r == self@.tc_id,
    {
        self.tc_id
    }

    /// The bytes of field `name`, or `None` if this record has no such field.
    pub fn field(&self, name: &str) -> (r: Option<&[u8]>)
        ensures
            match first_field(self@.fields, name.spec_bytes()) {
                Some(v) => r matches Some(b) && b@ == v,
                None => r is None,
            },
    {
        let key = name.as_bytes();
        assert(fields_view(self.fields@).subrange(0, self.fields@.len() as int) =~= fields_view(
            self.fields@,
        ));
        let mut i: usize = 0;
        while i < self.fields.len()
            invariant
                i <= self.fields@.len(),
                key@ == name.spec_bytes(),
                first_field(fields_view(self.fields@), key@) == first_field(
                    fields_view(self.fields@).subrange(i as int, self.fields@.len() as int),
                    key@,
                ),
            decreases self.fields@.len() - i,
        {
            let ghost rest = fields_view(self.fields@).subrange(i as int, self.fields@.len() as int);
            assert(rest.drop_first() =~= fields_view(self.fields@).subrange(
                i + 1,
                self.fields@.len() as int,
            ));
            if bytes_eq(self.fields[i].0.as_slice(), key) {
                return Some(self.fields[i].1.as_slice());
            }
            i = i + 1;
        }
        None
    }
}

// ---- the text model ----

/// ASCII whitespace: space, tab, line feed, vertical tab, form feed, carriage return.
pub open spec fn is_ws(b: u8) -> bool {
    b == 0x20 || (0x09 <= b && b <= 0x0d)
}

/// Whether the three bytes are the UTF-8 encoding of a three-byte Unicode whitespace
/// character: U+1680, U+2000 to U+200A, U+2028, U+2029, U+202F, U+205F or U+3000.
pub open spec fn is_ws3(b0: u8, b1: u8, b2: u8) -> bool {
    ||| b0 == 0xe1 && b1 == 0x9a && b2 == 0x80
    ||| b0 == 0xe2 && b1 == 0x80 && ((0x80 <= b2 && b2 <= 0x8a) || b2 == 0xa8 || b2 == 0xa9 || b2 == 0xaf)
    ||| b0 == 0xe2 && b1 == 0x81 && b2 == 0x9f
    ||| b0 == 0xe3 && b1 == 0x80 && b2 == 0x80
}

/// Whether the two bytes are the UTF-8 encoding of U+0085 or U+00A0.
pub open spec fn is_ws2(b0: u8, b1: u8) -> bool {
    b0 == 0xc2 && (b1 == 0x85 || b1 == 0xa0)
}

/// The length of the Unicode whitespace character (`char::is_whitespace`) that `s`
/// starts with, or 0 if it starts with none.
pub open spec fn ws_front_len(s: Seq<u8>) -> int {
    if s.len() >= 1 && is_ws(s[0]) {
        1
    } else if s.len() >= 2 && is_ws2(s[0], s[1]) {
        2
    } else if s.len() >= 3 && is_ws3(s[0], s[1], s[2]) {
        3
    } else {
        0
    }
}

/// The length of the Unicode whitespace character that `s` ends with, or 0 if it ends
/// with none.
pub open spec fn ws_back_len(s: Seq<u8>) -> int {
    let n = s.len() as int;
    if n >= 1 && is_ws(s[n - 1]) {
        1
    } else if n >= 2 && is_ws2(s[n - 2], s[n - 1]) {
        2
    } else if n >= 3 && is_ws3(s[n - 3], s[n - 2], s[n - 1]) {
        3
    } else {
        0
    }
}

/// `s` without its leading Unicode whitespace.
pub open spec fn trim_front(s: Seq<u8>) -> Seq<u8>
    decreases s.len(),
{
    if ws_front_len(s) > 0 {
        trim_front(s.skip(ws_front_len(s)))
    } else {
        s
    }
}

/// `s` without its trailing Unicode whitespace.
pub open spec fn trim_back(s: Seq<u8>) -> Seq<u8>
    decreases s.len(),
{
    if ws_back_len(s) > 0 {
        trim_back(s.take(s.len() - ws_back_len(s)))
    } else {
        s
    }
}

/// `s` without leading and trailing whitespace.
pub open spec fn trim(s: Seq<u8>) -> Seq<u8> {
    trim_back(trim_front(s))
}

/// The index of the first `c` in `s`, or `s.len()` if there is none.
pub open spec fn find(s: Seq<u8>, c: u8) -> int
    decreases s.len(),
{
    if s.len() == 0 {
        0
    } else if s[0] == c {
        0
    } else {
        1 + find(s.drop_first(), c)
    }
}

/// The comment that sets the next record's test-case id: `# tcId `.
pub open spec fn tc_prefix() -> Seq<u8> {
    seq![0x23u8, 0x20, 0x74, 0x63, 0x49, 0x64, 0x20]
}

/// Whether `p` is a prefix of `s`.
pub open spec fn starts_with(s: Seq<u8>, p: Seq<u8>) -> bool {
    s.len() >= p.len() && s.subrange(0, p.len() as int) == p
}

/// Whether `b` is an ASCII decimal digit.
pub open spec fn is_digit(b: u8) -> bool {
    0x30 <= b && b <= 0x39
}

/// The decimal value of a string of digits.
pub open spec fn digits_value(d: Seq<u8>) -> nat
    decreases d.len(),
{
    if d.len() == 0 {
        0
    } else {
        digits_value(d.drop_last()) * 10 + (d.last() - 0x30) as nat
    }
}

/// The digits of a number, after an optional `+` sign.
pub open spec fn digits_part(s: Seq<u8>) -> Seq<u8> {
    if s.len() > 0 && s[0] == 0x2b {
        s.drop_first()
    } else {
        s
    }
}

/// `str::parse::<u32>`: an optional `+`, then one or more decimal digits whose value
/// fits in a `u32`.
pub open spec fn parse_u32_spec(s: Seq<u8>) -> Option<u32> {
    let d = digits_part(s);
    if d.len() == 0 || exists|i: int| 0 <= i < d.len() && !is_digit(#[trigger] d[i]) {
        None
    } else if digits_value(d) > u32::MAX {
        None
    } else {
        Some(digits_value(d) as u32)
    }
}

/// A two-character hex value as `u8::from_str_radix(_, 16)` reads it: two hex digits,
/// or a `+` sign and one hex digit.
pub open spec fn pair_ok(c0: u8, c1: u8) -> bool {
    hex_digit(c1) is Some && (hex_digit(c0) is Some || c0 == 0x2b)
}

/// The byte that the hex pair `c0 c1` denotes.
pub open spec fn pair_value(c0: u8, c1: u8) -> u8 {
    if c0 == 0x2b {
        hex_digit(c1)->0
    } else {
        (hex_digit(c0)->0 * 16 + hex_digit(c1)->0) as u8
    }
}

/// Whether `hex` decodes: an even length and every pair readable.
pub open spec fn hex_ok(hex: Seq<u8>) -> bool {
    hex.len() % 2 == 0 && forall|i: int|
        0 <= i < hex.len() / 2 ==> #[trigger] pair_ok(hex[2 * i], hex[2 * i + 1])
}

/// The bytes `hex` decodes to.
pub open spec fn hex_value(hex: Seq<u8>) -> Seq<u8> {
    Seq::new(hex.len() / 2, |i: int| pair_value(hex[2 * i], hex[2 * i + 1]))
}

/// The parser's state between lines: the finished records, the fields of the record
/// being read, and its test-case id.
pub struct KatState {
    pub records: Seq<RecordView>,
    pub fields: Seq<(Seq<u8>, Seq<u8>)>,
    pub tc_id: Option<u32>,
}

/// The state after a blank line: the record being read, if it has fields, is done.
pub open spec fn end_record(st: KatState) -> KatState {
    if st.fields.len() > 0 {
        KatState {
            records: st.records.push(RecordView { tc_id: st.tc_id, fields: st.fields }),
            fields: Seq::empty(),
            tc_id: None,
        }
    } else {
        st
    }
}

/// The state after the trimmed line `t`.
pub open spec fn line_step(st: KatState, t: Seq<u8>) -> KatState {
    if t.len() == 0 {
        end_record(st)
    } else if starts_with(t, tc_prefix()) {
        let rest = t.subrange(7, t.len() as int);
        KatState { tc_id: parse_u32_spec(trim(rest.subrange(0, find(rest, 0x3a)))), ..st }
    } else if t[0] == 0x23 {
        st
    } else {
        let eq = find(t, 0x3d);
        let name = trim(t.subrange(0, eq));
        let value = trim(t.subrange(eq + 1, t.len() as int));
        KatState { fields: st.fields.push((name, hex_value(value))), ..st }
    }
}

/// Whether the trimmed line `t` reads without a panic: a `name = hex` line has its `=`
/// and a decodable value.
pub open spec fn line_ok(t: Seq<u8>) -> bool {
    if t.len() == 0 || starts_with(t, tc_prefix()) || t[0] == 0x23 {
        true
    } else {
        let eq = find(t, 0x3d);
        eq < t.len() && hex_ok(trim(t.subrange(eq + 1, t.len() as int)))
    }
}

/// The end of the line that starts at `pos`: the next `\n`, or the end of the text.
pub open spec fn line_end(text: Seq<u8>, pos: int) -> int {
    pos + find(text.subrange(pos, text.len() as int), 0x0a)
}

/// The state after reading the lines of `text` from `pos` on.
pub open spec fn parse_lines(text: Seq<u8>, pos: int, st: KatState) -> KatState
    decreases text.len() - pos,
{
    if pos < 0 || pos >= text.len() {
        st
    } else {
        let end = line_end(text, pos);
        let next = if end < text.len() {
            end + 1
        } else {
            text.len() as int
        };
        if next <= pos {
            st
        } else {
            parse_lines(text, next, line_step(st, trim(text.subrange(pos, end))))
        }
    }
}

/// Whether every line of `text` from `pos` on reads without a panic.
pub open spec fn lines_ok(text: Seq<u8>, pos: int) -> bool
    decreases text.len() - pos,
{
    if pos < 0 || pos >= text.len() {
        true
    } else {
        let end = line_end(text, pos);
        let next = if end < text.len() {
            end + 1
        } else {
            text.len() as int
        };
        if next <= pos {
            true
        } else {
            line_ok(trim(text.subrange(pos, end))) && lines_ok(text, next)
        }
    }
}

/// The parser's state before the first line.
pub open spec fn initial_state() -> KatState {
    KatState { records: Seq::empty(), fields: Seq::empty(), tc_id: None }
}

/// The records of a KAT text.
pub open spec fn parse_spec(text: Seq<u8>) -> Seq<RecordView> {
    end_record(parse_lines(text, 0, initial_state())).records
}

// ---- the executable parser ----

proof fn lemma_find_bounds(s: Seq<u8>, c: u8)
    ensures
        0 <= find(s, c) <= s.len(),
        find(s, c) < s.len() ==> s[find(s, c)] == c,
        forall|j: int| 0 <= j < find(s, c) ==> s[j] != c,
    decreases s.len(),
{
    if s.len() > 0 && s[0] != c {
        lemma_find_bounds(s.drop_first(), c);
        assert forall|j: int| 0 <= j < find(s, c) implies s[j] != c by {
            if j > 0 {
                assert(s[j] == s.drop_first()[j - 1]);
            }
        }
    }
}

/// The index of the first `c` in `s[from..to]`, or `to`.
fn find_in(s: &[u8], from: usize, to: usize, c: u8) -> (r: usize)
    requires
        from <= to <= s@.len(),
    ensures
        r == from + find(s@.subrange(from as int, to as int), c),
        from <= r <= to,
{
    let mut i = from;
    while i < to
        invariant
            from <= i <= to <= s@.len(),
            find(s@.subrange(from as int, to as int), c) == (i - from) + find(
                s@.subrange(i as int, to as int),
                c,
            ),
        decreases to - i,
    {
        assert(s@.subrange(i as int, to as int).drop_first() =~= s@.subrange(i + 1, to as int));
        if s[i] == c {
            return i;
        }
        i = i + 1;
    }
    i
}

fn is_ws_byte(b: u8) -> (r: bool)
    ensures
        r == is_ws(b),
{
    b == 0x20 || (0x09 <= b && b <= 0x0d)
}

/// The length of the whitespace character at the front of `s[a..b]`, or 0.
fn ws_front_at(s: &[u8], a: usize, b: usize) -> (r: usize)
    requires
        a <= b <= s@.len(),
    ensures
        r as int == ws_front_len(s@.subrange(a as int, b as int)),
{
    let n = b - a;
    if n >= 1 && is_ws_byte(s[a]) {
        1
    } else if n >= 2 && s[a] == 0xc2 && (s[a + 1] == 0x85 || s[a + 1] == 0xa0) {
        2
    } else if n >= 3 && ((s[a] == 0xe1 && s[a + 1] == 0x9a && s[a + 2] == 0x80) || (s[a] == 0xe2
        && s[a + 1] == 0x80 && ((0x80 <= s[a + 2] && s[a + 2] <= 0x8a) || s[a + 2] == 0xa8 || s[a
        + 2] == 0xa9 || s[a + 2] == 0xaf)) || (s[a] == 0xe2 && s[a + 1] == 0x81 && s[a + 2] == 0x9f)
        || (s[a] == 0xe3 && s[a + 1] == 0x80 && s[a + 2] == 0x80)) {
        3
    } else {
        0
    }
}

/// The length of the whitespace character at the back of `s[a..b]`, or 0.
fn ws_back_at(s: &[u8], a: usize, b: usize) -> (r: usize)
    requires
        a <= b <= s@.len(),
    ensures
        r as int == ws_back_len(s@.subrange(a as int, b as int)),
{
    let n = b - a;
    if n >= 1 && is_ws_byte(s[b - 1]) {
        1
    } else if n >= 2 && s[b - 2] == 0xc2 && (s[b - 1] == 0x85 || s[b - 1] == 0xa0) {
        2
    } else if n >= 3 && ((s[b - 3] == 0xe1 && s[b - 2] == 0x9a && s[b - 1] == 0x80) || (s[b - 3]
        == 0xe2 && s[b - 2] == 0x80 && ((0x80 <= s[b - 1] && s[b - 1] <= 0x8a) || s[b - 1] == 0xa8
        || s[b - 1] == 0xa9 || s[b - 1] == 0xaf)) || (s[b - 3] == 0xe2 && s[b - 2] == 0x81 && s[b
        - 1] == 0x9f) || (s[b - 3] == 0xe3 && s[b - 2] == 0x80 && s[b - 1] == 0x80)) {
        3
    } else {
        0
    }
}

/// The bounds of `s[a..b]` with whitespace trimmed from both ends.
fn trim_range(s: &[u8], a: usize, b: usize) -> (r: (usize, usize))
    requires
        a <= b <= s@.len(),
    ensures
        a <= r.0 <= r.1 <= b,
        s@.subrange(r.0 as int, r.1 as int) == trim(s@.subrange(a as int, b as int)),
{
    let mut i = a;
    loop
        invariant
            a <= i <= b <= s@.len(),
            trim_front(s@.subrange(a as int, b as int)) == trim_front(s@.subrange(i as int, b as int)),
        ensures
            a <= i <= b,
            trim_front(s@.subrange(a as int, b as int)) == s@.subrange(i as int, b as int),
        decreases b - i,
    {
        let k = ws_front_at(s, i, b);
        if k == 0 {
            break;
        }
        assert(s@.subrange(i as int, b as int).skip(k as int) =~= s@.subrange(i + k, b as int));
        i = i + k;
    }
    let mut j = b;
    loop
        invariant
            a <= i <= j <= b <= s@.len(),
            trim_front(s@.subrange(a as int, b as int)) == s@.subrange(i as int, b as int),
            trim_back(s@.subrange(i as int, b as int)) == trim_back(s@.subrange(i as int, j as int)),
        ensures
            i <= j <= b,
            trim_back(s@.subrange(i as int, b as int)) == s@.subrange(i as int, j as int),
        decreases j - i,
    {
        let k = ws_back_at(s, i, j);
        if k == 0 {
            break;
        }
        assert(s@.subrange(i as int, j as int).take(j - k - i) =~= s@.subrange(i as int, (j - k) as int));
        j = j - k;
    }
    (i, j)
}

proof fn lemma_digits_grow(d: Seq<u8>, k: int)
    requires
        0 <= k <= d.len(),
    ensures
        digits_value(d.subrange(0, k)) <= digits_value(d),
    decreases d.len() - k,
{
    if k < d.len() {
        lemma_digits_grow(d, k + 1);
        assert(d.subrange(0, k + 1).drop_last() =~= d.subrange(0, k));
        assert(digits_value(d.subrange(0, k + 1)) == digits_value(d.subrange(0, k)) * 10 + (d.subrange(0, k + 1).last() - 0x30) as nat);
    } else {
        assert(d.subrange(0, k) =~= d);
    }
}

/// `str::parse::<u32>` on `s[a..b]`.
fn parse_u32(s: &[u8], a: usize, b: usize) -> (r: Option<u32>)
    requires
        a <= b <= s@.len(),
    ensures
        r == parse_u32_spec(s@.subrange(a as int, b as int)),
{
    let ghost t = s@.subrange(a as int, b as int);
    let mut start = a;
    if a < b && s[a] == 0x2b {
        start = a + 1;
    }
    let ghost d = digits_part(t);
    assert(d =~= s@.subrange(start as int, b as int));
    if start == b {
        return None;
    }
    let mut acc: u64 = 0;
    let mut i = start;
    while i < b
        invariant
            a <= start <= i <= b <= s@.len(),
            d == s@.subrange(start as int, b as int),
            d == digits_part(s@.subrange(a as int, b as int)),
            acc == digits_value(s@.subrange(start as int, i as int)),
            acc <= u32::MAX,
            forall|j: int| start <= j < i ==> is_digit(s@[j]),
        decreases b - i,
    {
        let c = s[i];
        if c < 0x30 || c > 0x39 {
            assert(d[i - start] == c);
            assert(!is_digit(d[i - start]));
            return None;
        }
        assert(s@.subrange(start as int, i + 1).drop_last() =~= s@.subrange(start as int, i as int));
        acc = acc * 10 + (c - 0x30) as u64;
        assert(acc == digits_value(s@.subrange(start as int, i + 1)));
        if acc > 0xffff_ffff {
            proof {
                lemma_digits_grow(d, i + 1 - start);
                assert(d.subrange(0, i + 1 - start) =~= s@.subrange(start as int, i + 1));
            }
            return None;
        }
        i = i + 1;
    }
    assert(s@.subrange(start as int, b as int) =~= d);
    assert forall|j: int| 0 <= j < d.len() implies is_digit(#[trigger] d[j]) by {
        assert(d[j] == s@[start + j]);
    }
    Some(acc as u32)
}

/// Decodes the hex value `s[a..b]`, which `hex_ok` admits.
fn hex_decode(s: &[u8], a: usize, b: usize) -> (r: Vec<u8>)
    requires
        a <= b <= s@.len(),
        hex_ok(s@.subrange(a as int, b as int)),
    ensures
        r@ == hex_value(s@.subrange(a as int, b as int)),
{
    let ghost h = s@.subrange(a as int, b as int);
    let n = (b - a) / 2;
    let mut out: Vec<u8> = Vec::new();
    let mut k: usize = 0;
    while k < n
        invariant
            a <= b <= s@.len(),
            h == s@.subrange(a as int, b as int),
            hex_ok(h),
            n == h.len() / 2,
            k <= n,
            out@.len() == k,
            forall|j: int| 0 <= j < k ==> out@[j] == pair_value(h[2 * j], h[2 * j + 1]),
        decreases n - k,
    {
        assert(pair_ok(h[2 * k as int], h[2 * k + 1]));
        let c0 = s[a + 2 * k];
        let c1 = s[a + 2 * k + 1];
        let lo = match crate::crypto::bytes::nibble(c1) {
            Some(v) => v,
            None => 0,
        };
        let v: u8 = if c0 == 0x2b {
            lo
        } else {
            let hi = match crate::crypto::bytes::nibble(c0) {
                Some(v) => v,
                None => 0,
            };
            hi * 16 + lo
        };
        out.push(v);
        k = k + 1;
    }
    assert(out@ =~= hex_value(h));
    out
}

/// Splits KAT text into records. A blank line ends a record; a `# tcId N:` comment sets
/// the next record's test-case id (or clears it when the number does not parse); other
/// `#` lines are ignored; every other line is `name = hex`. A malformed line can only
/// mean a corrupt vector file; the text must have none.
pub fn parse(text: &str) -> (r: Vec<Record>)
    requires
        lines_ok(text.spec_bytes(), 0),
    ensures
        Seq::new(r@.len(), |i: int| r@[i]@) == parse_spec(text.spec_bytes()),
{
    let s = text.as_bytes();
    let mut records: Vec<Record> = Vec::new();
    let mut fields: Vec<(Vec<u8>, Vec<u8>)> = Vec::new();
    let mut tc_id: Option<u32> = None;
    let mut pos: usize = 0;
    assert(Seq::new(records@.len(), |i: int| records@[i]@) =~= Seq::<RecordView>::empty());
    assert(fields_view(fields@) =~= Seq::<(Seq<u8>, Seq<u8>)>::empty());
    while pos < s.len()
        invariant
            s@ == text.spec_bytes(),
            pos <= s@.len(),
            lines_ok(s@, pos as int),
            parse_lines(s@, 0, initial_state()) == parse_lines(
                s@,
                pos as int,
                KatState {
                    records: Seq::new(records@.len(), |i: int| records@[i]@),
                    fields: fields_view(fields@),
                    tc_id,
                },
            ),
        decreases s@.len() - pos,
    {
        let end = find_in(s, pos, s.len(), 0x0a);
        let (a, b) = trim_range(s, pos, end);
        let ghost st = KatState {
            records: Seq::new(records@.len(), |i: int| records@[i]@),
            fields: fields_view(fields@),
            tc_id,
        };
        let ghost t = s@.subrange(a as int, b as int);
        if a == b {
            if fields.len() > 0 {
                let mut done: Vec<(Vec<u8>, Vec<u8>)> = Vec::new();
                core::mem::swap(&mut done, &mut fields);
                let ghost before = records@;
                records.push(Record { tc_id, fields: done });
                tc_id = None;
                assert(Seq::new(records@.len(), |i: int| records@[i]@) =~= st.records.push(
                    RecordView { tc_id: st.tc_id, fields: st.fields },
                ));
                assert(fields_view(fields@) =~= Seq::<(Seq<u8>, Seq<u8>)>::empty());
            }
        } else if b - a >= 7 && s[a] == 0x23 && s[a + 1] == 0x20 && s[a + 2] == 0x74 && s[a + 3]
            == 0x63 && s[a + 4] == 0x49 && s[a + 5] == 0x64 && s[a + 6] == 0x20 {
            assert(t.subrange(0, 7) =~= tc_prefix());
            let colon = find_in(s, a + 7, b, 0x3a);
            let (na, nb) = trim_range(s, a + 7, colon);
            let ghost rest = t.subrange(7, t.len() as int);
            assert(rest =~= s@.subrange(a + 7, b as int));
            assert(rest.subrange(0, colon - (a + 7)) =~= s@.subrange(a + 7, colon as int));
            tc_id = parse_u32(s, na, nb);
        } else if s[a] == 0x23 {
            proof {
                if starts_with(t, tc_prefix()) {
                    assert(t.subrange(0, 7)[1] == 0x20);
                    assert(t.subrange(0, 7)[2] == 0x74);
                    assert(t.subrange(0, 7)[3] == 0x63);
                    assert(t.subrange(0, 7)[4] == 0x49);
                    assert(t.subrange(0, 7)[5] == 0x64);
                    assert(t.subrange(0, 7)[6] == 0x20);
                }
            }
        } else {
            let eq = find_in(s, a, b, 0x3d);
            proof {
                assert(t =~= s@.subrange(a as int, b as int));
                lemma_find_bounds(t, 0x3d);
            }
            let (na, nb) = trim_range(s, a, eq);
            let (va, vb) = trim_range(s, eq + 1, b);
            assert(t.subrange(0, eq - a) =~= s@.subrange(a as int, eq as int));
            assert(t.subrange(eq - a + 1, t.len() as int) =~= s@.subrange(eq + 1, b as int));
            let value = hex_decode(s, va, vb);
            let mut name: Vec<u8> = Vec::new();
            let mut i = na;
            while i < nb
                invariant
                    na <= i <= nb <= s@.len(),
                    name@ == s@.subrange(na as int, i as int),
                decreases nb - i,
            {
                name.push(s[i]);
                i = i + 1;
            }
            let ghost before = fields@;
            fields.push((name, value));
            assert(fields_view(fields@) =~= fields_view(before).push(
                (s@.subrange(na as int, nb as int), hex_value(s@.subrange(va as int, vb as int))),
            ));
        }
        if end < s.len() {
            pos = end + 1;
        } else {
            pos = s.len();
        }
    }
    if fields.len() > 0 {
        records.push(Record { tc_id, fields });
    }
    assert(Seq::new(records@.len(), |i: int| records@[i]@) =~= parse_spec(text.spec_bytes()));
    records
}

} // verus!
