//! Length-bounded byte buffers.
use vstd::prelude::*;
use vstd::string::StringSliceAdditionalSpecFns;

verus! {

/// Errors from constructing a [`Bytes`] buffer.
#[derive(Debug, Clone, Copy, PartialEq, Eq, Structural)]
pub enum BytesError {
    /// The byte sequence is longer than the buffer's maximum length `MAX`.
    TooLong { len: usize, max: usize },
    /// An exact-length constructor received a sequence of the wrong length.
    WrongLength { expected: usize, got: usize },
    /// A hex string contained a character that is not a hex digit.
    BadHex { index: usize },
    /// A hex string had an odd number of characters.
    OddLength { len: usize },
}

/// Compares two byte strings in time that depends only on their lengths
/// (`subtle::ConstantTimeEq::ct_eq` on slices, converted to `bool`). The crate's
/// source returns 1 exactly when the lengths agree and every byte agrees.
#[verifier::external_body]
fn ct_eq_bytes(a: &[u8], b: &[u8]) -> (r: bool)
    ensures
        r == (a@ == b@),
{
    bool::from(subtle::ConstantTimeEq::ct_eq(a, b))
}

/// Overwrites every byte of `v` with zero, with writes the compiler may not remove
/// (`zeroize::Zeroize::zeroize` on the slice). The length is unchanged. The crate
/// asserts that the length fits an `isize`, hence the precondition.
#[verifier::external_body]
pub(crate) fn wipe(v: &mut Vec<u8>)
    requires
        old(v)@.len() <= isize::MAX,
    ensures
        final(v)@ == Seq::new(old(v)@.len(), |i: int| 0u8),
{
    zeroize::Zeroize::zeroize(v.as_mut_slice())
}

/// Overwrites the 32 bytes of `a` with zeros, element by element with volatile writes
/// the compiler may not remove (`zeroize::Zeroize::zeroize` on the array).
#[verifier::external_body]
pub(crate) fn wipe32(a: &mut [u8; 32])
    ensures
        final(a)@ == Seq::new(32, |i: int| 0u8),
{
    zeroize::Zeroize::zeroize(a)
}

/// The length of `v` (`Vec::len`). std documents that a vector never holds more than
/// `isize::MAX` bytes, so for bytes the length is at most `isize::MAX`.
#[verifier::external_body]
pub(crate) fn vec_len(v: &Vec<u8>) -> (r: usize)
    ensures
        r == v@.len(),
        r <= isize::MAX,
{
    v.len()
}

/// A variable-length byte buffer holding at most `MAX` bytes.
///
/// Construction rejects any sequence longer than `MAX`. Equality is constant-time,
/// so comparing secret material never leaks through timing.
#[derive(Debug, Hash)]
pub struct Bytes<const MAX: usize> {
    data: Vec<u8>,
}

impl<const MAX: usize> View for Bytes<MAX> {
    type V = Seq<u8>;

    closed spec fn view(&self) -> Seq<u8> {
        self.data@
    }
}

/// The value of an ASCII hex digit, if `c` is one.
pub open spec fn hex_digit(c: u8) -> Option<u8> {
    if 0x30 <= c <= 0x39 {
        Some((c - 0x30) as u8)
    } else if 0x61 <= c <= 0x66 {
        Some((c - 0x61 + 10) as u8)
    } else if 0x41 <= c <= 0x46 {
        Some((c - 0x41 + 10) as u8)
    } else {
        None
    }
}

/// Decodes the pairs of `hex` from pair `k` on, after `acc` has been decoded from the
/// pairs before it: the first pair with a non-hex character is `BadHex` (its first
/// offending index), and a valid pair past the capacity `max` is `TooLong`.
pub open spec fn decode_pairs(hex: Seq<u8>, max: usize, k: nat, acc: Seq<u8>) -> Result<
    Seq<u8>,
    BytesError,
>
    decreases hex.len() - 2 * k,
{
    if 2 * k + 1 >= hex.len() {
        Ok(acc)
    } else if hex_digit(hex[2 * k as int]) is None {
        Err(BytesError::BadHex { index: (2 * k) as usize })
    } else if hex_digit(hex[2 * k + 1int]) is None {
        Err(BytesError::BadHex { index: (2 * k + 1) as usize })
    } else if k >= max {
        Err(BytesError::TooLong { len: (hex.len() / 2) as usize, max })
    } else {
        decode_pairs(
            hex,
            max,
            k + 1,
            acc.push(
                (hex_digit(hex[2 * k as int])->0 * 16 + hex_digit(hex[2 * k + 1int])->0) as u8,
            ),
        )
    }
}

/// What `from_hex` gives for `hex` with capacity `max`.
pub open spec fn from_hex_spec(hex: Seq<u8>, max: usize) -> Result<Seq<u8>, BytesError> {
    if hex.len() % 2 != 0 {
        Err(BytesError::OddLength { len: hex.len() as usize })
    } else {
        decode_pairs(hex, max, 0, Seq::empty())
    }
}

/// The value of one hex digit.
pub(crate) fn nibble(c: u8) -> (r: Option<u8>)
    ensures
        r == hex_digit(c),
{
    if 0x30 <= c && c <= 0x39 {
        Some(c - 0x30)
    } else if 0x61 <= c && c <= 0x66 {
        Some(c - 0x61 + 10)
    } else if 0x41 <= c && c <= 0x46 {
        Some(c - 0x41 + 10)
    } else {
        None
    }
}

impl<const MAX: usize> Bytes<MAX> {
    #[verifier::type_invariant]
    spec fn inv(self) -> bool {
        self.data@.len() <= MAX
    }

    /// Creates an empty buffer.
    pub fn new() -> (r: Self)
        ensures
            r@ == Seq::<u8>::empty(),
    {
        Bytes { data: Vec::new() }
    }

    /// Returns the contents as a byte slice.
    pub fn as_slice(&self) -> (r: &[u8])
        ensures
            r@ == self@,
            r@.len() <= MAX,
    {
        proof {
            use_type_invariant(self);
        }
        self.data.as_slice()
    }

    /// The number of bytes held.
    pub fn len(&self) -> (r: usize)
        ensures
            r == self@.len(),
            r <= MAX,
    {
        proof {
            use_type_invariant(self);
        }
        self.data.len()
    }

    /// Copies `bytes` into a new buffer, or `TooLong` if there are more than `MAX`.
    pub fn from_slice(bytes: &[u8]) -> (r: Result<Self, BytesError>)
        ensures
            bytes@.len() <= MAX ==> (r matches Ok(b) && b@ == bytes@),
            bytes@.len() > MAX ==> r == Err::<Self, BytesError>(
                BytesError::TooLong { len: bytes@.len() as usize, max: MAX },
            ),
    {
        if bytes.len() > MAX {
            return Err(BytesError::TooLong { len: bytes.len(), max: MAX });
        }
        let mut data: Vec<u8> = Vec::new();
        let mut i: usize = 0;
        while i < bytes.len()
            invariant
                i <= bytes@.len() <= MAX,
                data@ == bytes@.subrange(0, i as int),
            decreases bytes@.len() - i,
        {
            data.push(bytes[i]);
            i = i + 1;
        }
        assert(data@ =~= bytes@);
        Ok(Bytes { data })
    }

    /// Creates a buffer that must contain exactly `MAX` bytes, for fixed-size values
    /// (keys, nonces, digests), where a wrong length is an error in its own right.
    pub fn try_from_exact(bytes: &[u8]) -> (r: Result<Self, BytesError>)
        ensures
            bytes@.len() == MAX ==> (r matches Ok(b) && b@ == bytes@),
            bytes@.len() != MAX ==> r == Err::<Self, BytesError>(
                BytesError::WrongLength { expected: MAX, got: bytes@.len() as usize },
            ),
    {
        if bytes.len() != MAX {
            return Err(BytesError::WrongLength { expected: MAX, got: bytes.len() });
        }
        Self::from_slice(bytes)
    }

    /// Parses a hex string into a buffer, rejecting a non-hex character, an odd length,
    /// or more than `MAX` decoded bytes.
    pub fn from_hex(hex: &str) -> (r: Result<Self, BytesError>)
        ensures
            match from_hex_spec(hex.spec_bytes(), MAX) {
                Ok(v) => r matches Ok(b) && b@ == v,
                Err(e) => r == Err::<Self, BytesError>(e),
            },
    {
        let h = hex.as_bytes();
        if h.len() % 2 != 0 {
            return Err(BytesError::OddLength { len: h.len() });
        }
        let mut out: Vec<u8> = Vec::new();
        let mut k: usize = 0;
        while k < h.len() / 2
            invariant
                h@ == hex.spec_bytes(),
                h@.len() % 2 == 0,
                k <= h@.len() / 2,
                k <= MAX,
                out@.len() == k,
                from_hex_spec(h@, MAX) == decode_pairs(h@, MAX, k as nat, out@),
            decreases h@.len() / 2 - k,
        {
            let hi = match nibble(h[2 * k]) {
                Some(v) => v,
                None => return Err(BytesError::BadHex { index: 2 * k }),
            };
            let lo = match nibble(h[2 * k + 1]) {
                Some(v) => v,
                None => return Err(BytesError::BadHex { index: 2 * k + 1 }),
            };
            if k >= MAX {
                return Err(BytesError::TooLong { len: h.len() / 2, max: MAX });
            }
            out.push(hi * 16 + lo);
            k = k + 1;
        }
        Ok(Bytes { data: out })
    }

    /// Overwrites the live bytes with zeros; the length is left unchanged.
    pub fn zeroize(&mut self)
        ensures
            final(self)@ == Seq::new(old(self)@.len(), |i: int| 0u8),
    {
        proof {
            use_type_invariant(&*self);
        }
        let mut data = Vec::new();
        core::mem::swap(&mut data, &mut self.data);
        let _ = vec_len(&data);
        wipe(&mut data);
        self.data = data;
    }

    /// Compares the contents in time that depends only on the lengths.
    pub fn ct_eq(&self, other: &Self) -> (r: bool)
        ensures
            r == (self@ == other@),
    {
        ct_eq_bytes(self.data.as_slice(), other.data.as_slice())
    }
}

impl<const MAX: usize> Clone for Bytes<MAX> {
    fn clone(&self) -> (r: Self)
        ensures
            r@ == self@,
    {
        proof {
            use_type_invariant(self);
        }
        let mut data: Vec<u8> = Vec::new();
        let mut i: usize = 0;
        while i < self.data.len()
            invariant
                i <= self.data@.len() <= MAX,
                data@ == self.data@.subrange(0, i as int),
            decreases self.data@.len() - i,
        {
            data.push(self.data[i]);
            i = i + 1;
        }
        assert(data@ =~= self.data@);
        Bytes { data }
    }
}

impl<const MAX: usize> Default for Bytes<MAX> {
    fn default() -> (r: Self)
        ensures
            r@ == Seq::<u8>::empty(),
    {
        Bytes::new()
    }
}

impl<'a, const MAX: usize> vstd::std_specs::convert::TryFromSpecImpl<&'a [u8]> for Bytes<MAX> {
    open spec fn obeys_try_from_spec() -> bool {
        false
    }

    open spec fn try_from_spec(bytes: &'a [u8]) -> Result<Self, BytesError> {
        Err(BytesError::TooLong { len: 0, max: 0 })
    }
}

impl<'a, const MAX: usize> TryFrom<&'a [u8]> for Bytes<MAX> {
    type Error = BytesError;

    fn try_from(bytes: &'a [u8]) -> (r: Result<Self, BytesError>)
        ensures
            bytes@.len() <= MAX ==> (r matches Ok(b) && b@ == bytes@),
            bytes@.len() > MAX ==> r == Err::<Self, BytesError>(
                BytesError::TooLong { len: bytes@.len() as usize, max: MAX },
            ),
    {
        Bytes::from_slice(bytes)
    }
}

impl<const MAX: usize> vstd::std_specs::cmp::PartialEqSpecImpl for Bytes<MAX> {
    open spec fn obeys_eq_spec() -> bool {
        true
    }

    open spec fn eq_spec(&self, other: &Self) -> bool {
        self@ == other@
    }
}

impl<const MAX: usize> PartialEq for Bytes<MAX> {
    fn eq(&self, other: &Self) -> (r: bool) {
        self.ct_eq(other)
    }
}

impl<const MAX: usize> Eq for Bytes<MAX> {
}


/// The 32 bytes of `s` from `start` on, as an array.
pub fn array32_at(s: &[u8], start: usize) -> (r: [u8; 32])
    requires
        start + 32 <= s@.len(),
    ensures
        r@ == s@.subrange(start as int, start + 32),
{
    let len = s.len();
    let mut a = [0u8; 32];
    let mut i: usize = 0;
    while i < 32
        invariant
            len == s@.len(),
            start + 32 <= len,
            i <= 32,
            forall|j: int| 0 <= j < i ==> a@[j] == s@[start + j],
        decreases 32 - i,
    {
        a[i] = s[start + i];
        i = i + 1;
    }
    assert(a@ =~= s@.subrange(start as int, start + 32));
    a
}

/// The 64 bytes of `s` from `start` on, as an array.
pub fn array64_at(s: &[u8], start: usize) -> (r: [u8; 64])
    requires
        start + 64 <= s@.len(),
    ensures
        r@ == s@.subrange(start as int, start + 64),
{
    let len = s.len();
    let mut a = [0u8; 64];
    let mut i: usize = 0;
    while i < 64
        invariant
            len == s@.len(),
            start + 64 <= len,
            i <= 64,
            forall|j: int| 0 <= j < i ==> a@[j] == s@[start + j],
        decreases 64 - i,
    {
        a[i] = s[start + i];
        i = i + 1;
    }
    assert(a@ =~= s@.subrange(start as int, start + 64));
    a
}

} // verus!
