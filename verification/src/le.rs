//! Little-endian integer fields inside byte buffers.

use vstd::prelude::*;

verus! {

/// `256^n`.
pub open spec fn pow256(n: nat) -> nat
    decreases n,
{
    if n == 0 {
        1
    } else {
        256 * pow256((n - 1) as nat)
    }
}

/// The unsigned integer that the bytes `s` encode, least significant byte first.
pub open spec fn le_value(s: Seq<u8>) -> nat
    decreases s.len(),
{
    if s.len() == 0 {
        0
    } else {
        s[0] as nat + 256 * le_value(s.drop_first())
    }
}

/// The `n` least significant bytes of `x`, least significant byte first.
pub open spec fn le_bytes(x: nat, n: nat) -> Seq<u8>
    decreases n,
{
    if n == 0 {
        Seq::empty()
    } else {
        seq![(x % 256) as u8] + le_bytes(x / 256, (n - 1) as nat)
    }
}

/// `s` with the bytes starting at `at` replaced by `t`.
pub open spec fn splice(s: Seq<u8>, at: int, t: Seq<u8>) -> Seq<u8> {
    s.take(at) + t + s.skip(at + t.len())
}

pub proof fn lemma_pow256_values()
    ensures
        pow256(1) == 0x100,
        pow256(2) == 0x1_0000,
        pow256(3) == 0x100_0000,
        pow256(4) == 0x1_0000_0000,
        pow256(5) == 0x100_0000_0000,
        pow256(6) == 0x1_0000_0000_0000,
        pow256(7) == 0x100_0000_0000_0000,
        pow256(8) == 0x1_0000_0000_0000_0000,
{
    reveal_with_fuel(pow256, 9);
}

pub proof fn lemma_pow256_mono(a: nat, b: nat)
    requires
        a <= b,
    ensures
        pow256(a) <= pow256(b),
    decreases b,
{
    if a < b {
        lemma_pow256_mono(a, (b - 1) as nat);
    }
}

pub proof fn lemma_le_bytes_len(x: nat, n: nat)
    ensures
        le_bytes(x, n).len() == n,
    decreases n,
{
    if n > 0 {
        lemma_le_bytes_len(x / 256, (n - 1) as nat);
    }
}

/// Bytes read back give the value they were written from.
pub proof fn lemma_le_value_of_bytes(x: nat, n: nat)
    requires
        x < pow256(n),
    ensures
        le_value(le_bytes(x, n)) == x,
    decreases n,
{
    lemma_le_bytes_len(x, n);
    if n > 0 {
        lemma_le_value_of_bytes(x / 256, (n - 1) as nat);
        let t = le_bytes(x, n);
        assert(t.drop_first() == le_bytes(x / 256, (n - 1) as nat));
    }
}

/// A value written back gives the bytes it was read from.
pub proof fn lemma_le_bytes_of_value(s: Seq<u8>)
    ensures
        le_bytes(le_value(s), s.len()) == s,
    decreases s.len(),
{
    if s.len() > 0 {
        lemma_le_bytes_of_value(s.drop_first());
        let v = le_value(s);
        assert(v % 256 == s[0] as nat);
        assert(v / 256 == le_value(s.drop_first()));
        assert(le_bytes(v, s.len()) =~= s);
    }
}

pub proof fn lemma_le_value_bound(s: Seq<u8>)
    ensures
        le_value(s) < pow256(s.len()),
    decreases s.len(),
{
    if s.len() > 0 {
        lemma_le_value_bound(s.drop_first());
    }
}

/// Reads the `n`-byte little-endian integer that starts at `at`.
pub fn read_le(s: &[u8], at: usize, n: usize) -> (r: u64)
    requires
        n <= 8,
        at + n <= s@.len(),
    ensures
        r as nat == le_value(s@.subrange(at as int, at + n)),
{
    proof {
        lemma_pow256_values();
    }
    let len = s.len();
    let mut v: u64 = 0;
    let mut i: usize = n;
    while i > 0
        invariant
            len == s@.len(),
            n <= 8,
            at + n <= s@.len(),
            i <= n,
            v as nat == le_value(s@.subrange(at + i, at + n)),
            pow256(8) == 0x1_0000_0000_0000_0000,
        decreases i,
    {
        let ghost tail = s@.subrange(at + i, at + n);
        let ghost cur = s@.subrange(at + i - 1, at + n);
        proof {
            assert(cur.drop_first() == tail);
            lemma_le_value_bound(tail);
            lemma_pow256_mono(tail.len(), 7);
            lemma_pow256_values();
        }
        let b = s[at + i - 1];
        v = b as u64 + 256 * v;
        i = i - 1;
    }
    v
}

/// Writes the `n` least significant bytes of `x` at `at`, least significant byte first.
pub fn write_le(dst: &mut [u8], at: usize, x: u64, n: usize)
    requires
        n <= 8,
        at + n <= old(dst)@.len(),
    ensures
        final(dst)@ == splice(old(dst)@, at as int, le_bytes(x as nat, n as nat)),
        final(dst)@.len() == old(dst)@.len(),
{
    proof {
        lemma_le_bytes_len(x as nat, n as nat);
    }
    let len = dst.len();
    let mut v: u64 = x;
    let mut i: usize = 0;
    while i < n
        invariant
            len == old(dst)@.len(),
            n <= 8,
            i <= n,
            at + n <= old(dst)@.len(),
            dst@.len() == old(dst)@.len(),
            dst@.take(at as int) == old(dst)@.take(at as int),
            dst@.skip(at + n) == old(dst)@.skip(at + n),
            dst@.subrange(at as int, at + i) + le_bytes(v as nat, (n - i) as nat) == le_bytes(
                x as nat,
                n as nat,
            ),
        decreases n - i,
    {
        let ghost before = dst@;
        dst[at + i] = (v % 256) as u8;
        proof {
            assert(dst@.take(at as int) =~= before.take(at as int));
            assert(dst@.skip(at + n) =~= before.skip(at + n));
            assert(dst@.subrange(at as int, at + i + 1) =~= before.subrange(at as int, at + i).push(
                (v % 256) as u8,
            ));
            assert(le_bytes(v as nat, (n - i) as nat) == seq![(v % 256) as u8] + le_bytes(
                (v / 256) as nat,
                (n - i - 1) as nat,
            ));
            assert(dst@.subrange(at as int, at + i + 1) + le_bytes((v / 256) as nat, (n - i - 1) as nat)
                =~= before.subrange(at as int, at + i) + le_bytes(v as nat, (n - i) as nat));
        }
        v = v / 256;
        i = i + 1;
    }
    proof {
        assert(le_bytes(v as nat, 0) =~= Seq::<u8>::empty());
        assert(dst@ =~= splice(old(dst)@, at as int, le_bytes(x as nat, n as nat)));
    }
}

} // verus!

verus! {

/// Two bytes, least significant first.
pub proof fn lemma_le_value_2(s: Seq<u8>)
    requires
        s.len() == 2,
    ensures
        le_value(s) == s[0] + 256 * s[1],
{
    reveal_with_fuel(le_value, 3);
    assert(s.drop_first().drop_first().len() == 0);
}

/// Four bytes, least significant first.
pub proof fn lemma_le_value_4(s: Seq<u8>)
    requires
        s.len() == 4,
    ensures
        le_value(s) == s[0] + 0x100 * s[1] + 0x1_0000 * s[2] + 0x100_0000 * s[3],
{
    reveal_with_fuel(le_value, 5);
    assert(s.drop_first().drop_first().drop_first().drop_first().len() == 0);
}

/// Eight bytes, least significant first.
pub proof fn lemma_le_value_8(s: Seq<u8>)
    requires
        s.len() == 8,
    ensures
        le_value(s) == s[0] + 0x100 * s[1] + 0x1_0000 * s[2] + 0x100_0000 * s[3] + 0x1_0000_0000
            * s[4] + 0x100_0000_0000 * s[5] + 0x1_0000_0000_0000 * s[6] + 0x100_0000_0000_0000
            * s[7],
{
    reveal_with_fuel(le_value, 9);
    assert(s.drop_first().drop_first().drop_first().drop_first().drop_first().drop_first().drop_first().drop_first().len() == 0);
}

/// The `n` bytes written for `x` read back as `x` (for `x < 256^n`), seen
/// through two, four or eight explicit bytes.
pub proof fn lemma_le_bytes_explicit(x: nat, n: nat)
    requires
        n == 2 || n == 4 || n == 8,
        x < pow256(n),
    ensures
        le_bytes(x, n).len() == n,
        n == 2 ==> x == le_bytes(x, n)[0] + 256 * le_bytes(x, n)[1],
        n == 4 ==> x == le_bytes(x, n)[0] + 0x100 * le_bytes(x, n)[1] + 0x1_0000 * le_bytes(x, n)[2]
            + 0x100_0000 * le_bytes(x, n)[3],
        n == 8 ==> x == le_bytes(x, n)[0] + 0x100 * le_bytes(x, n)[1] + 0x1_0000 * le_bytes(x, n)[2]
            + 0x100_0000 * le_bytes(x, n)[3] + 0x1_0000_0000 * le_bytes(x, n)[4] + 0x100_0000_0000
            * le_bytes(x, n)[5] + 0x1_0000_0000_0000 * le_bytes(x, n)[6] + 0x100_0000_0000_0000
            * le_bytes(x, n)[7],
{
    lemma_le_bytes_len(x, n);
    lemma_le_value_of_bytes(x, n);
    if n == 2 {
        lemma_le_value_2(le_bytes(x, n));
    } else if n == 4 {
        lemma_le_value_4(le_bytes(x, n));
    } else {
        lemma_le_value_8(le_bytes(x, n));
    }
}


/// An `n`-byte little-endian field holding `x` (for `x < 256^n`) at `at` in
/// `p`, seen through its explicit bytes.
pub proof fn lemma_le_field(p: Seq<u8>, at: int, x: nat, n: nat)
    requires
        n == 2 || n == 4 || n == 8,
        0 <= at,
        at + n <= p.len(),
        p.subrange(at, at + n) == le_bytes(x, n),
        x < pow256(n),
    ensures
        n == 2 ==> x == p[at] + 256 * p[at + 1],
        n == 4 ==> x == p[at] + 0x100 * p[at + 1] + 0x1_0000 * p[at + 2] + 0x100_0000 * p[at + 3],
        n == 8 ==> x == p[at] + 0x100 * p[at + 1] + 0x1_0000 * p[at + 2] + 0x100_0000 * p[at + 3]
            + 0x1_0000_0000 * p[at + 4] + 0x100_0000_0000 * p[at + 5] + 0x1_0000_0000_0000 * p[at
            + 6] + 0x100_0000_0000_0000 * p[at + 7],
{
    let s = p.subrange(at, at + n);
    lemma_le_value_of_bytes(x, n);
    if n == 2 {
        lemma_le_value_2(s);
        assert(s[0] == p[at] && s[1] == p[at + 1]);
    } else if n == 4 {
        lemma_le_value_4(s);
        assert(s[0] == p[at] && s[1] == p[at + 1] && s[2] == p[at + 2] && s[3] == p[at + 3]);
    } else {
        lemma_le_value_8(s);
        assert(s[0] == p[at] && s[1] == p[at + 1] && s[2] == p[at + 2] && s[3] == p[at + 3]);
        assert(s[4] == p[at + 4] && s[5] == p[at + 5] && s[6] == p[at + 6] && s[7] == p[at + 7]);
    }
}

} // verus!
