//! Decimal and hexadecimal text of numbers, as the console prints them.
use vstd::prelude::*;

verus! {

/// ASCII digit for `d < 10`.
pub open spec fn dec_char(d: int) -> u8 {
    (d + 48) as u8
}

/// Decimal digits of `v`, most significant first, without leading zeros
/// ("0" for zero).
pub open spec fn dec_digits(v: nat) -> Seq<u8>
    decreases v,
{
    if v < 10 {
        seq![dec_char(v as int)]
    } else {
        dec_digits(v / 10).push(dec_char((v % 10) as int))
    }
}

/// The number that a string of ASCII decimal digits spells.
pub open spec fn dec_value(s: Seq<u8>) -> int
    decreases s.len(),
{
    if s.len() == 0 {
        0
    } else {
        dec_value(s.drop_last()) * 10 + (s.last() - 48)
    }
}

/// Every byte is an ASCII decimal digit.
pub open spec fn all_dec(s: Seq<u8>) -> bool {
    forall|i: int| 0 <= i < s.len() ==> 48 <= #[trigger] s[i] <= 57
}

/// ASCII hex digit (lower case) for `n < 16`.
pub open spec fn hex_char(n: u64) -> u8 {
    if n < 10 {
        (48 + n) as u8
    } else {
        (97 + n - 10) as u8
    }
}

/// The 16 hex digits of `v`, most significant nibble first.
pub open spec fn hex_digits(v: u64) -> Seq<u8> {
    Seq::new(16, |k: int| hex_char((v >> ((4 * (15 - k)) as u64)) & 0xf))
}

/// Decimal digits of `v` are digits, and spell `v`.
pub proof fn lemma_dec_digits(v: nat)
    ensures
        all_dec(dec_digits(v)),
        dec_value(dec_digits(v)) == v,
        dec_digits(v).len() >= 1,
        v > 0 ==> dec_digits(v)[0] != 48,
    decreases v,
{
    let s = dec_digits(v);
    if v >= 10 {
        lemma_dec_digits(v / 10);
        assert(s.drop_last() == dec_digits(v / 10));
        assert(s[0] == dec_digits(v / 10)[0]);
        assert(v % 10 < 10);
        assert(s.last() == (v % 10 + 48) as u8);
        assert(s.last() - 48 == v % 10);
        assert(v == (v / 10) * 10 + v % 10);
        assert(dec_value(s) == dec_value(s.drop_last()) * 10 + (s.last() - 48));
    } else {
        assert(s.drop_last() =~= Seq::<u8>::empty());
        assert(s.last() - 48 == v);
        assert(dec_value(s.drop_last()) == 0);
        assert(dec_value(s) == dec_value(s.drop_last()) * 10 + (s.last() - 48));
    }
}

proof fn lemma_dec_len(v: nat, bound: nat, n: nat)
    requires
        v < bound,
        bound == pow10(n),
        n >= 1,
    ensures
        dec_digits(v).len() <= n,
    decreases n,
{
    if v >= 10 {
        assert(n >= 2) by {
            if n == 1 {
                reveal_with_fuel(pow10, 2);
            }
        }
        assert(pow10(n) == 10 * pow10((n - 1) as nat));
        lemma_dec_len(v / 10, pow10((n - 1) as nat), (n - 1) as nat);
    }
}

pub open spec fn pow10(n: nat) -> nat
    decreases n,
{
    if n == 0 {
        1
    } else {
        10 * pow10((n - 1) as nat)
    }
}

/// A `u64` has at most 20 decimal digits.
pub proof fn lemma_dec_digits_u64(v: u64)
    ensures
        dec_digits(v as nat).len() <= 20,
{
    reveal_with_fuel(pow10, 21);
    assert(pow10(20) == 100_000_000_000_000_000_000);
    lemma_dec_len(v as nat, pow10(20), 20);
}

/// The decimal text of `val`.
pub fn dec_text(val: u64) -> (r: Vec<u8>)
    ensures
        r@ == dec_digits(val as nat),
{
    if val == 0 {
        let mut r: Vec<u8> = Vec::new();
        r.push(48u8);
        assert(r@ =~= dec_digits(0));
        return r;
    }
    let mut buf: Vec<u8> = Vec::new();
    let mut n = val;
    // buf holds the low digits, least significant first
    while n > 0
        invariant
            0 < val,
            n <= val,
            n > 0 ==> dec_digits(val as nat) == dec_digits(n as nat) + buf@.reverse(),
            n == 0 ==> dec_digits(val as nat) == buf@.reverse(),
        decreases n,
    {
        let d = (n % 10) as u8;
        let ghost old_buf = buf@;
        let ghost old_n = n;
        buf.push(48u8 + d);
        n = n / 10;
        proof {
            assert(buf@.reverse() =~= seq![dec_char((old_n % 10) as int)] + old_buf.reverse());
            if old_n >= 10 {
                assert(dec_digits(old_n as nat) == dec_digits(n as nat).push(dec_char((old_n % 10) as int)));
                assert(dec_digits(n as nat) + buf@.reverse() =~= dec_digits(old_n as nat) + old_buf.reverse());
            } else {
                assert(n == 0);
                assert(dec_digits(old_n as nat) == seq![dec_char(old_n as int)]);
                assert(buf@.reverse() =~= dec_digits(old_n as nat) + old_buf.reverse());
            }
        }
    }
    let mut r: Vec<u8> = Vec::new();
    let mut i = buf.len();
    while i > 0
        invariant
            i <= buf@.len(),
            r@ == buf@.subrange(i as int, buf@.len() as int).reverse(),
        decreases i,
    {
        i -= 1;
        r.push(buf[i]);
        assert(r@ =~= buf@.subrange(i as int, buf@.len() as int).reverse());
    }
    assert(buf@.subrange(0, buf@.len() as int) == buf@);
    r
}

/// The 16 hex digits of `val`.
pub fn hex_text(val: u64) -> (r: Vec<u8>)
    ensures
        r@ == hex_digits(val),
{
    let mut r: Vec<u8> = Vec::new();
    let mut i: u64 = 16;
    while i > 0
        invariant
            i <= 16,
            r@.len() == 16 - i,
            forall|k: int| 0 <= k < r@.len() ==> r@[k] == hex_digits(val)[k],
        decreases i,
    {
        i -= 1;
        let nibble = (val >> (i * 4)) & 0xf;
        proof {
            assert(nibble < 16) by (bit_vector)
                requires
                    nibble == (val >> (i * 4)) & 0xf,
            ;
        }
        let ch = if nibble < 10 {
            48u8 + nibble as u8
        } else {
            97u8 + (nibble as u8 - 10)
        };
        proof {
            let k = 15 - i as int;
            assert((4 * (15 - k)) as u64 == i * 4);
        }
        r.push(ch);
    }
    assert(r@ =~= hex_digits(val));
    r
}

/// Nibble `i` (counting from the least significant) of `v`.
pub open spec fn nibble(v: u64, i: u64) -> u64 {
    (v >> (i * 4)) & 0xf
}

/// Law: different numbers have different hex texts.
pub proof fn law_hex_injective(a: u64, b: u64)
    requires
        hex_digits(a) == hex_digits(b),
    ensures
        a == b,
{
    assert forall|i: u64| i < 16 implies #[trigger] nibble(a, i) == nibble(b, i) by {
        let k = 15 - i as int;
        let na = nibble(a, i);
        let nb = nibble(b, i);
        assert(na < 16 && nb < 16) by (bit_vector)
            requires
                na == (a >> (i * 4)) & 0xf,
                nb == (b >> (i * 4)) & 0xf,
        ;
        assert((4 * (15 - k)) as u64 == i * 4);
        assert(hex_digits(a)[k] == hex_char(na));
        assert(hex_digits(b)[k] == hex_char(nb));
        assert(hex_char(na) == hex_char(nb));
    }
    assert(nibble(a, 0) == nibble(b, 0) && nibble(a, 1) == nibble(b, 1) && nibble(a, 2) == nibble(b, 2)
        && nibble(a, 3) == nibble(b, 3) && nibble(a, 4) == nibble(b, 4) && nibble(a, 5) == nibble(b, 5)
        && nibble(a, 6) == nibble(b, 6) && nibble(a, 7) == nibble(b, 7) && nibble(a, 8) == nibble(b, 8)
        && nibble(a, 9) == nibble(b, 9) && nibble(a, 10) == nibble(b, 10) && nibble(a, 11) == nibble(b, 11)
        && nibble(a, 12) == nibble(b, 12) && nibble(a, 13) == nibble(b, 13) && nibble(a, 14) == nibble(b, 14)
        && nibble(a, 15) == nibble(b, 15));
    assert(a == b) by (bit_vector)
        requires
            (a >> 0u64) & 0xf == (b >> 0u64) & 0xf,
            (a >> 4u64) & 0xf == (b >> 4u64) & 0xf,
            (a >> 8u64) & 0xf == (b >> 8u64) & 0xf,
            (a >> 12u64) & 0xf == (b >> 12u64) & 0xf,
            (a >> 16u64) & 0xf == (b >> 16u64) & 0xf,
            (a >> 20u64) & 0xf == (b >> 20u64) & 0xf,
            (a >> 24u64) & 0xf == (b >> 24u64) & 0xf,
            (a >> 28u64) & 0xf == (b >> 28u64) & 0xf,
            (a >> 32u64) & 0xf == (b >> 32u64) & 0xf,
            (a >> 36u64) & 0xf == (b >> 36u64) & 0xf,
            (a >> 40u64) & 0xf == (b >> 40u64) & 0xf,
            (a >> 44u64) & 0xf == (b >> 44u64) & 0xf,
            (a >> 48u64) & 0xf == (b >> 48u64) & 0xf,
            (a >> 52u64) & 0xf == (b >> 52u64) & 0xf,
            (a >> 56u64) & 0xf == (b >> 56u64) & 0xf,
            (a >> 60u64) & 0xf == (b >> 60u64) & 0xf,
    ;
}

} // verus!
