//! Deterministic randomness for reproducible runs.
use vstd::prelude::*;

verus! {

/// `x` wrapped into a `u64`.
pub open spec fn wrap64(x: int) -> u64 {
    (x % 0x1_0000_0000_0000_0000) as u64
}

/// The counter after `k` draws from `state`: each draw advances it by one, wrapping.
pub open spec fn draws(state: u64, k: nat) -> u64
    decreases k,
{
    if k == 0 {
        state
    } else {
        wrap64(draws(state, (k - 1) as nat) + 1)
    }
}

/// The `k`-th draw from a counter seeded at `seed` (which `next_u64` returns, the counter
/// then holding it) is `seed + k`, wrapping around at 2^64.
pub proof fn lemma_kth_draw(seed: u64, k: nat)
    ensures
        draws(seed, k) == wrap64(seed + k),
    decreases k,
{
    if k > 0 {
        lemma_kth_draw(seed, (k - 1) as nat);
        let x: int = seed + k - 1;
        let m: int = 0x1_0000_0000_0000_0000;
        vstd::arithmetic::div_mod::lemma_add_mod_noop(x, 1, m);
        vstd::arithmetic::div_mod::lemma_small_mod(1, m as nat);
        vstd::arithmetic::div_mod::lemma_mod_bound(x, m);
        assert(((x % m) as u64) as int == x % m);
    }
}

/// The first `n` little-endian bytes of `v`.
pub open spec fn le_bytes(v: u64, n: nat) -> Seq<u8>
    decreases n,
{
    if n == 0 {
        Seq::empty()
    } else {
        seq![(v % 256) as u8] + le_bytes(v / 256, (n - 1) as nat)
    }
}

/// The `n` bytes a counter at `state` fills in: each successive counter value
/// `state + 1, state + 2, ...` contributes its little-endian bytes, eight at a time, the
/// last draw truncated.
pub open spec fn counter_bytes(state: u64, n: nat) -> Seq<u8>
    decreases n,
{
    if n == 0 {
        Seq::empty()
    } else {
        let v = wrap64(state + 1);
        if n <= 8 {
            le_bytes(v, n)
        } else {
            le_bytes(v, 8) + counter_bytes(v, (n - 8) as nat)
        }
    }
}

/// The counter after filling `n` bytes from `state`: one draw per started eight bytes.
pub open spec fn counter_after(state: u64, n: nat) -> u64
    decreases n,
{
    if n == 0 {
        state
    } else if n <= 8 {
        wrap64(state + 1)
    } else {
        counter_after(wrap64(state + 1), (n - 8) as nat)
    }
}

/// A deterministic counter-based random source, for reproducible runs.
///
/// It is not cryptographically secure: it returns an incrementing counter. Use it only
/// to make runs reproducible, never for real key material.
pub struct TestRng(u64);

impl TestRng {
    /// The counter.
    pub closed spec fn state(&self) -> u64 {
        self.0
    }

    /// Creates a counter seeded at `seed`; successive draws return `seed + 1`,
    /// `seed + 2`, and so on (wrapping).
    pub fn new(seed: u64) -> (r: Self)
        ensures
            r.state() == seed,
    {
        TestRng(seed)
    }

    /// The next counter value.
    pub fn next_u64(&mut self) -> (r: u64)
        ensures
            r == wrap64(old(self).state() + 1),
            final(self).state() == r,
    {
        self.0 = self.0.wrapping_add(1);
        self.0
    }

    /// The low 32 bits of the next counter value.
    pub fn next_u32(&mut self) -> (r: u32)
        ensures
            r == wrap64(old(self).state() + 1) % 0x1_0000_0000,
            final(self).state() == wrap64(old(self).state() + 1),
    {
        let v = self.next_u64();
        (v % 0x1_0000_0000) as u32
    }

    /// Fills `n` bytes: each draw gives eight little-endian bytes, the last draw
    /// truncated.
    pub fn fill(&mut self, n: usize) -> (r: Vec<u8>)
        ensures
            r@ == counter_bytes(old(self).state(), n as nat),
            final(self).state() == counter_after(old(self).state(), n as nat),
    {
        let ghost s0 = self.0;
        let mut out: Vec<u8> = Vec::new();
        let mut left: usize = n;
        while left > 0
            invariant
                out@.len() + left == n,
                counter_bytes(s0, n as nat) == out@ + counter_bytes(self.0, left as nat),
                counter_after(s0, n as nat) == counter_after(self.0, left as nat),
            decreases left,
        {
            let v = self.next_u64();
            let take: usize = if left < 8 {
                left
            } else {
                8
            };
            let ghost before = out@;
            let mut x = v;
            let mut j: usize = 0;
            while j < take
                invariant
                    j <= take <= 8,
                    out@.len() == before.len() + j,
                    out@ + le_bytes(x, (take - j) as nat) == before + le_bytes(v, take as nat),
                decreases take - j,
            {
                let ghost o = out@;
                out.push((x % 256) as u8);
                assert(out@ + le_bytes(x / 256, (take - j - 1) as nat) =~= o + le_bytes(x, (take - j) as nat));
                x = x / 256;
                j = j + 1;
            }
            assert(out@ =~= before + le_bytes(v, take as nat));
            left = left - take;
            proof {
                if left > 0 {
                    assert(out@ + counter_bytes(self.0, left as nat) =~= before + (le_bytes(v, 8) + counter_bytes(v, left as nat)));
                }
            }
        }
        assert(out@ =~= out@ + counter_bytes(self.0, 0));
        out
    }
}

} // verus!
