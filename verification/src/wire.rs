//! Big-endian integers in byte sequences.

use vstd::prelude::*;

verus! {

/// 256 to the power of `n`.
pub open spec fn pow256(n: nat) -> nat
    decreases n,
{
    if n == 0 {
        1
    } else {
        256 * pow256((n - 1) as nat)
    }
}

/// The low `width` bytes of `n`, most significant first.
pub open spec fn be(n: nat, width: nat) -> Seq<u8>
    decreases width,
{
    if width == 0 {
        seq![]
    } else {
        be(n / 256, (width - 1) as nat).push((n % 256) as u8)
    }
}

/// The number that bytes spell, most significant first.
pub open spec fn be_value(s: Seq<u8>) -> nat
    decreases s.len(),
{
    if s.len() == 0 {
        0
    } else {
        be_value(s.drop_last()) * 256 + s.last() as nat
    }
}

/// `be` writes exactly `width` bytes.
pub proof fn lemma_be_len(n: nat, width: nat)
    ensures
        be(n, width).len() == width,
    decreases width,
{
    if width > 0 {
        lemma_be_len(n / 256, (width - 1) as nat);
    }
}

/// Reading back what `be` wrote gives the number, reduced to `width` bytes.
pub proof fn lemma_be_round_trip(n: nat, width: nat)
    ensures
        be_value(be(n, width)) == n % pow256(width),
    decreases width,
{
    if width > 0 {
        let w = (width - 1) as nat;
        lemma_be_round_trip(n / 256, w);
        assert(be(n, width).drop_last() =~= be(n / 256, w));
        let p = pow256(w);
        lemma_pow256_positive(w);
        assert((n / 256) % p * 256 + n % 256 == n % (256 * p)) by (nonlinear_arith)
            requires
                p > 0,
        {
            let q = (n / 256) / p;
            let r = (n / 256) % p;
            assert(n / 256 == q * p + r);
            assert(n == 256 * (n / 256) + n % 256);
            assert(n == q * (256 * p) + (r * 256 + n % 256));
            assert(0 <= r * 256 + n % 256 < 256 * p);
            vstd::arithmetic::div_mod::lemma_fundamental_div_mod_converse(
                n as int,
                (256 * p) as int,
                q as int,
                (r * 256 + n % 256) as int,
            );
        }
    } else {
        assert(be(n, 0).len() == 0);
    }
}

/// Writing back what was read gives the bytes.
pub proof fn lemma_be_value_round_trip(s: Seq<u8>)
    ensures
        be(be_value(s), s.len()) == s,
    decreases s.len(),
{
    if s.len() > 0 {
        let t = s.drop_last();
        lemma_be_value_round_trip(t);
        assert(be_value(s) / 256 == be_value(t));
        assert(be_value(s) % 256 == s.last() as nat);
        assert(be(be_value(s), s.len()) =~= t.push(s.last()));
        assert(t.push(s.last()) =~= s);
    } else {
        assert(be(be_value(s), 0) =~= s);
    }
}

/// `be` writes only what a number is modulo 256 to the power of `width`.
pub proof fn lemma_be_mod(n: nat, width: nat)
    ensures
        be(n % pow256(width), width) == be(n, width),
{
    lemma_be_len(n, width);
    lemma_be_round_trip(n, width);
    lemma_be_value_round_trip(be(n, width));
}

proof fn lemma_pow256_positive(n: nat)
    ensures
        pow256(n) > 0,
    decreases n,
{
    if n > 0 {
        lemma_pow256_positive((n - 1) as nat);
    }
}

/// A number spelled by `n` bytes is below 256 to the power of `n`.
pub proof fn lemma_be_value_bound(s: Seq<u8>)
    ensures
        be_value(s) < pow256(s.len()),
    decreases s.len(),
{
    if s.len() > 0 {
        lemma_be_value_bound(s.drop_last());
    }
}

/// The powers that bound the machine integers.
pub proof fn lemma_pow256_values()
    ensures
        pow256(0) == 1,
        pow256(1) == 0x100,
        pow256(2) == 0x1_0000,
        pow256(4) == 0x1_0000_0000,
        pow256(8) == 0x1_0000_0000_0000_0000,
{
    reveal_with_fuel(pow256, 9);
}

/// Append the low `width` bytes of `v`, most significant first.
pub fn push_be(out: &mut Vec<u8>, v: u64, width: usize)
    ensures
        final(out)@ == old(out)@ + be(v as nat, width as nat),
    decreases width,
{
    if width == 0 {
        assert(out@ =~= old(out)@ + be(v as nat, 0));
    } else {
        push_be(out, v / 256, width - 1);
        out.push((v % 256) as u8);
        assert(out@ =~= old(out)@ + be(v as nat, width as nat));
    }
}

/// Read `width` bytes from `at` as one big-endian number.
pub fn read_be(bytes: &[u8], at: usize, width: usize) -> (v: u64)
    requires
        at + width <= bytes@.len(),
        width <= 8,
    ensures
        v == be_value(bytes@.subrange(at as int, at + width)),
        v < pow256(width as nat),
{
    let ghost part = bytes@.subrange(at as int, at + width);
    let len: usize = bytes.len();
    let mut v: u64 = 0;
    let mut i: usize = 0;
    while i < width
        invariant
            i <= width <= 8,
            at + width <= bytes@.len(),
            len == bytes@.len(),
            part == bytes@.subrange(at as int, at + width),
            v == be_value(part.take(i as int)),
        decreases width - i,
    {
        proof {
            lemma_be_value_bound(part.take(i as int));
            reveal_with_fuel(pow256, 9);
            assert(part.take(i + 1).drop_last() =~= part.take(i as int));
            assert(part.take(i + 1).last() == bytes@[at + i]);
        }
        v = v * 256 + bytes[at + i] as u64;
        i += 1;
    }
    assert(part.take(width as int) =~= part);
    proof {
        lemma_be_value_bound(part);
    }
    v
}

/// Append a slice of bytes.
pub fn push_bytes(out: &mut Vec<u8>, bytes: &[u8])
    ensures
        final(out)@ == old(out)@ + bytes@,
{
    let mut i: usize = 0;
    while i < bytes.len()
        invariant
            i <= bytes@.len(),
            out@ == old(out)@ + bytes@.take(i as int),
        decreases bytes@.len() - i,
    {
        out.push(bytes[i]);
        i += 1;
        assert(bytes@.take(i as int) =~= bytes@.take(i - 1).push(bytes@[i - 1]));
    }
    assert(bytes@.take(i as int) =~= bytes@);
}

/// A copy of a slice of bytes.
pub fn copy_bytes(bytes: &[u8]) -> (out: Vec<u8>)
    ensures
        out@ == bytes@,
{
    let mut out: Vec<u8> = Vec::new();
    push_bytes(&mut out, bytes);
    assert(Seq::<u8>::empty() + bytes@ =~= bytes@);
    out
}

/// Whether two runs of bytes are the same.
pub fn same_bytes(a: &[u8], b: &[u8]) -> (same: bool)
    ensures
        same == (a@ == b@),
{
    let n: usize = a.len();
    let m: usize = b.len();
    if n != m {
        return false;
    }
    let mut i: usize = 0;
    while i < n
        invariant
            i <= n,
            n == a@.len(),
            n == b@.len(),
            a@.take(i as int) == b@.take(i as int),
        decreases n - i,
    {
        if a[i] != b[i] {
            return false;
        }
        assert(a@.take(i + 1) =~= a@.take(i as int).push(a@[i as int]));
        assert(b@.take(i + 1) =~= b@.take(i as int).push(b@[i as int]));
        i += 1;
    }
    assert(a@.take(n as int) =~= a@);
    assert(b@.take(n as int) =~= b@);
    true
}

/// The first byte counts most: what precedes a byte is worth 256 times as much
/// as behind it, so that two bytes are the first times 256 plus the second.
pub proof fn lemma_first_byte_counts_most(a: u8, b: u8)
    ensures
        be_value(seq![a]) == a,
        be_value(seq![a, b]) == a * 256 + b,
        be((a * 256 + b) as nat, 2) == seq![a, b],
{
    reveal_with_fuel(be_value, 3);
    reveal_with_fuel(be, 3);
    assert(seq![a].drop_last() =~= seq![]);
    assert(seq![a, b].drop_last() =~= seq![a]);
    assert(be((a * 256 + b) as nat, 2) =~= seq![a, b]);
}

} // verus!
