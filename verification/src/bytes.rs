//! Little-endian integer fields, the building block of every wire format of
//! the measurement protocol.
use vstd::arithmetic::div_mod::{lemma_fundamental_div_mod_converse, lemma_mod_breakdown};
use vstd::prelude::*;

verus! {

/// `256^n`.
pub open spec fn pow256(n: nat) -> nat
    decreases n,
{
    if n == 0 {
        1
    } else {
        256 * pow256((n - 1) as nat)
    }
}

/// The low `n` bytes of `x`, least significant byte first.
pub open spec fn le_bytes(x: nat, n: nat) -> Seq<u8>
    decreases n,
{
    if n == 0 {
        seq![]
    } else {
        seq![(x % 256) as u8] + le_bytes(x / 256, (n - 1) as nat)
    }
}

/// The number whose little-endian representation is `s`.
pub open spec fn le_value(s: Seq<u8>) -> nat
    decreases s.len(),
{
    if s.len() == 0 {
        0
    } else {
        s[0] as nat + 256 * le_value(s.drop_first())
    }
}

pub proof fn lemma_pow256_positive(n: nat)
    ensures
        pow256(n) > 0,
    decreases n,
{
    if n > 0 {
        lemma_pow256_positive((n - 1) as nat);
    }
}

pub proof fn lemma_pow256_monotone(m: nat, n: nat)
    requires
        m <= n,
    ensures
        pow256(m) <= pow256(n),
    decreases n,
{
    if m < n {
        lemma_pow256_monotone(m, (n - 1) as nat);
        lemma_pow256_positive((n - 1) as nat);
    }
}

/// `256^16` is the size of the `u128` range, `256^8` that of `u64`.
pub proof fn lemma_pow256_widths()
    ensures
        pow256(16) == 0x1_0000_0000_0000_0000_0000_0000_0000_0000,
        pow256(8) == 0x1_0000_0000_0000_0000,
        pow256(4) == 0x1_0000_0000,
{
    reveal_with_fuel(pow256, 17);
}

pub proof fn lemma_le_bytes_len(x: nat, n: nat)
    ensures
        le_bytes(x, n).len() == n,
    decreases n,
{
    if n > 0 {
        lemma_le_bytes_len(x / 256, (n - 1) as nat);
    }
}

pub proof fn lemma_le_value_bound(s: Seq<u8>)
    ensures
        le_value(s) < pow256(s.len()),
    decreases s.len(),
{
    if s.len() > 0 {
        lemma_le_value_bound(s.drop_first());
    }
}

/// Reading back the bytes written for `x` gives `x` reduced to `n` bytes.
pub proof fn lemma_le_value_of_bytes(x: nat, n: nat)
    ensures
        le_value(le_bytes(x, n)) == x % pow256(n),
    decreases n,
{
    if n > 0 {
        let rest = le_bytes(x / 256, (n - 1) as nat);
        lemma_le_value_of_bytes(x / 256, (n - 1) as nat);
        assert(le_bytes(x, n).drop_first() =~= rest);
        lemma_pow256_positive((n - 1) as nat);
        lemma_mod_breakdown(x as int, 256, pow256((n - 1) as nat) as int);
    }
}

/// Writing the value of a byte sequence gives that byte sequence back.
pub proof fn lemma_le_bytes_of_value(s: Seq<u8>)
    ensures
        le_bytes(le_value(s), s.len()) =~= s,
    decreases s.len(),
{
    if s.len() > 0 {
        let v = le_value(s);
        let r = le_value(s.drop_first());
        assert(v == s[0] as nat + 256 * r);
        assert(v % 256 == s[0] as nat && v / 256 == r) by {
            assert(v as int == (r as int) * 256 + s[0] as int);
            lemma_fundamental_div_mod_converse(v as int, 256, r as int, s[0] as int);
        }
        lemma_le_bytes_of_value(s.drop_first());
        assert(le_bytes(v, s.len()) =~= seq![s[0]] + le_bytes(r, (s.len() - 1) as nat));
    }
}

/// Appends the low `n` bytes of `value` to `out`, least significant first.
pub fn push_le(out: &mut Vec<u8>, value: u128, n: usize)
    requires
        n <= 16,
    ensures
        final(out)@ == old(out)@ + le_bytes(value as nat, n as nat),
{
    let mut v: u128 = value;
    let mut i: usize = 0;
    while i < n
        invariant
            i <= n,
            out@ + le_bytes(v as nat, (n - i) as nat) == old(out)@ + le_bytes(value as nat, n as nat),
        decreases n - i,
    {
        let ghost before = out@;
        let b: u8 = (v % 256) as u8;
        assert(le_bytes(v as nat, (n - i) as nat) == seq![b] + le_bytes(
            (v / 256) as nat,
            (n - i - 1) as nat,
        ));
        out.push(b);
        assert(out@ + le_bytes((v / 256) as nat, (n - i - 1) as nat) =~= before + (seq![b]
            + le_bytes((v / 256) as nat, (n - i - 1) as nat)));
        v = v / 256;
        i = i + 1;
    }
}

/// Reads `n` bytes at `start` as a little-endian number.
pub fn read_le(bytes: &[u8], start: usize, n: usize) -> (r: u128)
    requires
        n <= 16,
        start + n <= bytes@.len(),
    ensures
        r as nat == le_value(bytes@.subrange(start as int, start + n)),
{
    let mut acc: u128 = 0;
    let mut i: usize = n;
    proof {
        lemma_pow256_widths();
        lemma_pow256_monotone(n as nat, 16);
    }
    assert(bytes@.subrange(start + n, start + n) =~= Seq::<u8>::empty());
    let len: usize = bytes.len();
    while i > 0
        invariant
            i <= n <= 16,
            len == bytes@.len(),
            start + n <= bytes@.len(),
            pow256(n as nat) <= pow256(16),
            pow256(16) == 0x1_0000_0000_0000_0000_0000_0000_0000_0000,
            acc as nat == le_value(bytes@.subrange(start + i, start + n)),
        decreases i,
    {
        i = i - 1;
        let ghost tail = bytes@.subrange(start + i + 1, start + n);
        let ghost cur = bytes@.subrange(start + i, start + n);
        assert(cur.drop_first() =~= tail);
        proof {
            lemma_le_value_bound(cur);
            lemma_pow256_monotone((n - i) as nat, n as nat);
        }
        assert(le_value(cur) == cur[0] as nat + 256 * le_value(tail));
        let b: u8 = bytes[start + i];
        acc = acc * 256 + b as u128;
    }
    acc
}

} // verus!
