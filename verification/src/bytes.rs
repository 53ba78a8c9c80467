//! Little-endian byte layouts of the structures the CPU and devices read.
use vstd::prelude::*;

verus! {

/// The `n` low bytes of `x`, least significant first.
pub open spec fn le(x: nat, n: nat) -> Seq<u8>
    decreases n,
{
    if n == 0 {
        Seq::empty()
    } else {
        seq![(x % 256) as u8] + le(x / 256, (n - 1) as nat)
    }
}

/// The value that the little-endian bytes `s` spell.
pub open spec fn le_value(s: Seq<u8>) -> nat
    decreases s.len(),
{
    if s.len() == 0 {
        0
    } else {
        s[0] as nat + 256 * le_value(s.drop_first())
    }
}

pub proof fn lemma_le_len(x: nat, n: nat)
    ensures
        le(x, n).len() == n,
    decreases n,
{
    if n > 0 {
        lemma_le_len(x / 256, (n - 1) as nat);
    }
}

/// Reading back the bytes of a value that fits gives the value.
pub proof fn lemma_le_round_trip(x: nat, n: nat)
    requires
        x < vstd::arithmetic::power2::pow2(8 * n),
    ensures
        le_value(le(x, n)) == x,
    decreases n,
{
    vstd::arithmetic::power2::lemma_pow2_pos(8 * n);
    if n == 0 {
        vstd::arithmetic::power2::lemma2_to64();
    } else {
        lemma_le_len(x / 256, (n - 1) as nat);
        vstd::arithmetic::power2::lemma_pow2_adds(8, 8 * (n - 1) as nat);
        vstd::arithmetic::power2::lemma2_to64();
        let p = vstd::arithmetic::power2::pow2(8 * (n - 1) as nat);
        assert(vstd::arithmetic::power2::pow2(8 * n) == 256 * p);
        assert(x / 256 < p) by (nonlinear_arith)
            requires
                x < 256 * p,
                p > 0,
        ;
        lemma_le_round_trip(x / 256, (n - 1) as nat);
        let s = le(x, n);
        assert(s.drop_first() =~= le(x / 256, (n - 1) as nat));
        assert(x == x % 256 + 256 * (x / 256)) by (nonlinear_arith);
    }
}

proof fn lemma_byte_step(y: u64)
    ensures
        (y & 0xff) as u8 == (y % 256) as u8,
        y >> 8u64 == y / 256,
{
    assert((y & 0xff) == y % 256) by (bit_vector);
    assert(y >> 8u64 == y / 256) by (bit_vector);
}

/// Append the `n` low bytes of `x`, least significant first.
pub fn push_le(v: &mut Vec<u8>, x: u64, n: usize)
    requires
        n <= 8,
    ensures
        final(v)@ == old(v)@ + le(x as nat, n as nat),
{
    let ghost goal = v@ + le(x as nat, n as nat);
    let mut y: u64 = x;
    let mut i: usize = 0;
    while i < n
        invariant
            i <= n,
            v@ + le(y as nat, (n - i) as nat) == goal,
        decreases n - i,
    {
        proof {
            lemma_byte_step(y);
            let m = (n - i) as nat;
            assert(le(y as nat, m) =~= seq![(y as nat % 256) as u8] + le(y as nat / 256, (m - 1) as nat));
            assert(v@ + le(y as nat, m) =~= v@.push((y as nat % 256) as u8) + le(y as nat / 256, (m - 1) as nat));
        }
        v.push((y & 0xff) as u8);
        y = y >> 8;
        i += 1;
    }
    proof {
        assert(v@ + le(y as nat, 0) =~= v@);
    }
}


/// Little-endian `u16` at byte `i` of `s`.
pub open spec fn u16_at(s: Seq<u8>, i: int) -> int {
    s[i] + s[i + 1] * 256
}

/// Little-endian `u32` at byte `i` of `s`.
pub open spec fn u32_at(s: Seq<u8>, i: int) -> int {
    u16_at(s, i) + u16_at(s, i + 2) * 65536
}

/// Little-endian `u64` at byte `i` of `s`.
pub open spec fn u64_at(s: Seq<u8>, i: int) -> int {
    u32_at(s, i) + u32_at(s, i + 4) * 4294967296
}

/// The `u16` at byte `i`.
pub fn read_u16(s: &[u8], i: usize) -> (r: u16)
    requires
        i + 2 <= s@.len(),
    ensures
        r == u16_at(s@, i as int),
{
    (s[i] as u16) + (s[i + 1] as u16) * 256
}

/// The `u32` at byte `i`.
pub fn read_u32(s: &[u8], i: usize) -> (r: u32)
    requires
        i + 4 <= s@.len(),
    ensures
        r == u32_at(s@, i as int),
{
    assert(i + 4 <= s.len());
    let lo = read_u16(s, i) as u32;
    let hi = read_u16(s, i + 2) as u32;
    assert(hi * 65536 <= 0xFFFF_0000) by (nonlinear_arith)
        requires
            hi <= 0xFFFF,
    ;
    lo + hi * 65536
}

/// The `u64` at byte `i`.
pub fn read_u64(s: &[u8], i: usize) -> (r: u64)
    requires
        i + 8 <= s@.len(),
    ensures
        r == u64_at(s@, i as int),
{
    assert(i + 8 <= s.len());
    let lo = read_u32(s, i) as u64;
    let hi = read_u32(s, i + 4) as u64;
    assert(hi * 4294967296 <= 0xFFFF_FFFF_0000_0000) by (nonlinear_arith)
        requires
            hi <= 0xFFFF_FFFF,
    ;
    lo + hi * 4294967296
}

} // verus!
