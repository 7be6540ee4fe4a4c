//! Fixed-width unsigned integers as byte strings, in both byte orders.
use vstd::prelude::*;

verus! {

/// The number of values that `n` bytes can hold.
pub open spec fn pow256(n: nat) -> nat
    decreases n,
{
    if n == 0 {
        1
    } else {
        256 * pow256((n - 1) as nat)
    }
}

/// The `n` low bytes of `x`, most significant byte first.
pub open spec fn be_bytes(x: nat, n: nat) -> Seq<u8>
    decreases n,
{
    if n == 0 {
        Seq::empty()
    } else {
        be_bytes(x / 256, (n - 1) as nat).push((x % 256) as u8)
    }
}

/// The number that `s` spells with its most significant byte first.
pub open spec fn be_value(s: Seq<u8>) -> nat
    decreases s.len(),
{
    if s.len() == 0 {
        0
    } else {
        be_value(s.drop_last()) * 256 + s.last() as nat
    }
}

/// The `n` low bytes of `x`, least significant byte first.
pub open spec fn le_bytes(x: nat, n: nat) -> Seq<u8>
    decreases n,
{
    if n == 0 {
        Seq::empty()
    } else {
        seq![(x % 256) as u8] + le_bytes(x / 256, (n - 1) as nat)
    }
}

/// The number that `s` spells with its least significant byte first.
pub open spec fn le_value(s: Seq<u8>) -> nat
    decreases s.len(),
{
    if s.len() == 0 {
        0
    } else {
        s.first() as nat + 256 * le_value(s.drop_first())
    }
}

pub proof fn lemma_be_bytes_len(x: nat, n: nat)
    ensures
        be_bytes(x, n).len() == n,
    decreases n,
{
    if n > 0 {
        lemma_be_bytes_len(x / 256, (n - 1) as nat);
    }
}

pub proof fn lemma_le_bytes_len(x: nat, n: nat)
    ensures
        le_bytes(x, n).len() == n,
    decreases n,
{
    if n > 0 {
        lemma_le_bytes_len(x / 256, (n - 1) as nat);
    }
}

pub proof fn lemma_pow256_values()
    ensures
        pow256(1) == 0x100,
        pow256(2) == 0x1_0000,
        pow256(4) == 0x1_0000_0000,
        pow256(8) == 0x1_0000_0000_0000_0000,
{
    reveal_with_fuel(pow256, 9);
}

/// A big-endian number of `n` bytes fits in `n` bytes.
pub proof fn lemma_be_value_bound(s: Seq<u8>)
    ensures
        be_value(s) < pow256(s.len()),
    decreases s.len(),
{
    if s.len() > 0 {
        lemma_be_value_bound(s.drop_last());
    }
}

/// A little-endian number of `n` bytes fits in `n` bytes.
pub proof fn lemma_le_value_bound(s: Seq<u8>)
    ensures
        le_value(s) < pow256(s.len()),
    decreases s.len(),
{
    if s.len() > 0 {
        lemma_le_value_bound(s.drop_first());
    }
}

/// Reading back a number written in big-endian order gives that number.
pub proof fn law_be_value_of_be_bytes(x: nat, n: nat)
    requires
        x < pow256(n),
    ensures
        be_value(be_bytes(x, n)) == x,
    decreases n,
{
    if n > 0 {
        law_be_value_of_be_bytes(x / 256, (n - 1) as nat);
        assert(be_bytes(x, n).drop_last() =~= be_bytes(x / 256, (n - 1) as nat));
    }
}

/// Writing the number that a byte string spells in big-endian order gives that byte string.
pub proof fn law_be_bytes_of_be_value(s: Seq<u8>)
    ensures
        be_bytes(be_value(s), s.len()) == s,
    decreases s.len(),
{
    if s.len() > 0 {
        law_be_bytes_of_be_value(s.drop_last());
        let hi = be_value(s.drop_last());
        let lo = s.last() as nat;
        assert((hi * 256 + lo) / 256 == hi);
        assert((hi * 256 + lo) % 256 == lo);
        assert(be_bytes(be_value(s), s.len()) =~= s.drop_last().push(s.last()));
        assert(s.drop_last().push(s.last()) =~= s);
    } else {
        assert(be_bytes(be_value(s), 0) =~= s);
    }
}

/// Reading back a number written in little-endian order gives that number.
pub proof fn law_le_value_of_le_bytes(x: nat, n: nat)
    requires
        x < pow256(n),
    ensures
        le_value(le_bytes(x, n)) == x,
    decreases n,
{
    if n > 0 {
        law_le_value_of_le_bytes(x / 256, (n - 1) as nat);
        assert(le_bytes(x, n).drop_first() =~= le_bytes(x / 256, (n - 1) as nat));
    }
}

/// Writing the number that a byte string spells in little-endian order gives that byte string.
pub proof fn law_le_bytes_of_le_value(s: Seq<u8>)
    ensures
        le_bytes(le_value(s), s.len()) == s,
    decreases s.len(),
{
    if s.len() > 0 {
        law_le_bytes_of_le_value(s.drop_first());
        let hi = le_value(s.drop_first());
        let lo = s.first() as nat;
        assert((lo + 256 * hi) / 256 == hi);
        assert((lo + 256 * hi) % 256 == lo);
        assert(le_bytes(le_value(s), s.len()) =~= seq![s.first()] + s.drop_first());
        assert(seq![s.first()] + s.drop_first() =~= s);
    } else {
        assert(le_bytes(le_value(s), 0) =~= s);
    }
}

/// Appends the `n` low bytes of `x`, most significant byte first.
pub fn push_be(out: &mut Vec<u8>, x: u64, n: usize)
    ensures
        final(out)@ == old(out)@ + be_bytes(x as nat, n as nat),
    decreases n,
{
    if n > 0 {
        push_be(out, x / 256, n - 1);
        out.push((x % 256) as u8);
        assert(out@ =~= old(out)@ + be_bytes(x as nat, n as nat));
    } else {
        assert(out@ =~= old(out)@ + be_bytes(x as nat, 0));
    }
}

/// Appends the `n` low bytes of `x`, least significant byte first.
pub fn push_le(out: &mut Vec<u8>, x: u64, n: usize)
    ensures
        final(out)@ == old(out)@ + le_bytes(x as nat, n as nat),
    decreases n,
{
    if n > 0 {
        out.push((x % 256) as u8);
        push_le(out, x / 256, n - 1);
        assert(out@ =~= old(out)@ + le_bytes(x as nat, n as nat));
    } else {
        assert(out@ =~= old(out)@ + le_bytes(x as nat, 0));
    }
}

/// Reads the big-endian number that stands in the `n` bytes of `buf` from `at` on.
pub fn read_be(buf: &[u8], at: usize, n: usize) -> (x: u64)
    requires
        n <= 8,
        at + n <= buf@.len(),
    ensures
        x as nat == be_value(buf@.subrange(at as int, at + n)),
        x < pow256(n as nat),
    decreases n,
{
    proof {
        assert(buf.len() == buf@.len());
        lemma_pow256_values();
        lemma_be_value_bound(buf@.subrange(at as int, at + n));
    }
    if n == 0 {
        0
    } else {
        let hi: u64 = read_be(buf, at, n - 1);
        proof {
            lemma_pow256_mono((n - 1) as nat, 7);
            assert(pow256(8) == 256 * pow256(7));
            assert(buf@.subrange(at as int, at + n).drop_last() =~= buf@.subrange(
                at as int,
                at + n - 1,
            ));
        }
        hi * 256 + buf[at + n - 1] as u64
    }
}

/// Reads the little-endian number that stands in the `n` bytes of `buf` from `at` on.
pub fn read_le(buf: &[u8], at: usize, n: usize) -> (x: u64)
    requires
        n <= 8,
        at + n <= buf@.len(),
    ensures
        x as nat == le_value(buf@.subrange(at as int, at + n)),
        x < pow256(n as nat),
    decreases n,
{
    proof {
        assert(buf.len() == buf@.len());
        lemma_pow256_values();
        lemma_le_value_bound(buf@.subrange(at as int, at + n));
    }
    if n == 0 {
        0
    } else {
        let hi: u64 = read_le(buf, at + 1, n - 1);
        proof {
            lemma_pow256_mono((n - 1) as nat, 7);
            assert(pow256(8) == 256 * pow256(7));
            assert(buf@.subrange(at as int, at + n).drop_first() =~= buf@.subrange(
                at + 1,
                at + n,
            ));
        }
        buf[at] as u64 + 256 * hi
    }
}

pub proof fn lemma_pow256_mono(a: nat, b: nat)
    requires
        a <= b,
    ensures
        pow256(a) <= pow256(b),
    decreases b,
{
    if a < b {
        lemma_pow256_mono(a, (b - 1) as nat);
    }
}

/// A new vector with the bytes of `s`.
pub fn copy_bytes(s: &[u8]) -> (v: Vec<u8>)
    ensures
        v@ == s@,
{
    let mut v: Vec<u8> = Vec::new();
    v.extend_from_slice(s);
    assert(v@ =~= s@);
    v
}

/// Appends the bytes of `s`.
pub fn push_bytes(out: &mut Vec<u8>, s: &[u8])
    ensures
        final(out)@ == old(out)@ + s@,
{
    out.extend_from_slice(s);
    assert(out@ =~= old(out)@ + s@);
}

/// The bytes of a number of four bytes, as powers of 256: in big-endian order the highest comes
/// first, in little-endian order the lowest.
pub proof fn law_bytes_are_in_order(x: u32)
    ensures
        be_bytes(x as nat, 4) == seq![
            (x as nat / 0x100_0000) as u8,
            (x as nat / 0x1_0000 % 256) as u8,
            (x as nat / 0x100 % 256) as u8,
            (x as nat % 256) as u8,
        ],
        le_bytes(x as nat, 4) == seq![
            (x as nat % 256) as u8,
            (x as nat / 0x100 % 256) as u8,
            (x as nat / 0x1_0000 % 256) as u8,
            (x as nat / 0x100_0000) as u8,
        ],
{
    reveal_with_fuel(be_bytes, 5);
    reveal_with_fuel(le_bytes, 5);
    let n = x as nat;
    assert(n / 256 / 256 == n / 0x1_0000);
    assert(n / 0x1_0000 / 256 == n / 0x100_0000);
    assert(n / 0x100_0000 < 256);
    assert(be_bytes(n, 4) =~= seq![
        (n / 0x100_0000) as u8,
        (n / 0x1_0000 % 256) as u8,
        (n / 0x100 % 256) as u8,
        (n % 256) as u8,
    ]);
    assert(le_bytes(n, 4) =~= seq![
        (n % 256) as u8,
        (n / 0x100 % 256) as u8,
        (n / 0x1_0000 % 256) as u8,
        (n / 0x100_0000) as u8,
    ]);
}

} // verus!
