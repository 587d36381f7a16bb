//! Big-endian ("network order") integers: their meaning as numbers, how they
//! are read from a byte slice and how they are written.

use vstd::prelude::*;

verus! {

/// `256` raised to `n`: the number of values that `n` bytes can hold.
pub open spec fn pow256(n: nat) -> nat
    decreases n,
{
    if n == 0 {
        1
    } else {
        256 * pow256((n - 1) as nat)
    }
}

/// The number that the bytes `s` stand for, most significant byte first.
pub open spec fn be_value(s: Seq<u8>) -> nat
    decreases s.len(),
{
    if s.len() == 0 {
        0
    } else {
        be_value(s.drop_last()) * 256 + s.last() as nat
    }
}

/// The `n` bytes, most significant first, that stand for `v` modulo `256^n`.
pub open spec fn be_bytes(v: nat, n: nat) -> Seq<u8>
    decreases n,
{
    if n == 0 {
        Seq::empty()
    } else {
        be_bytes(v / 256, (n - 1) as nat).push((v % 256) as u8)
    }
}

pub proof fn lemma_pow256_values()
    ensures
        pow256(0) == 1,
        pow256(1) == 0x100,
        pow256(2) == 0x1_0000,
        pow256(4) == 0x1_0000_0000,
        pow256(8) == 0x1_0000_0000_0000_0000,
{
    reveal_with_fuel(pow256, 9);
}

pub proof fn lemma_pow256_monotonic(a: nat, b: nat)
    requires
        a <= b,
    ensures
        pow256(a) <= pow256(b),
        pow256(a) >= 1,
    decreases b,
{
    if b > a {
        lemma_pow256_monotonic(a, (b - 1) as nat);
    } else if a > 0 {
        lemma_pow256_monotonic((a - 1) as nat, (a - 1) as nat);
    }
}

/// `n` bytes hold numbers below `256^n`.
pub proof fn lemma_be_value_bound(s: Seq<u8>)
    ensures
        be_value(s) < pow256(s.len()),
    decreases s.len(),
{
    if s.len() > 0 {
        lemma_be_value_bound(s.drop_last());
        let a = be_value(s.drop_last());
        let p = pow256((s.len() - 1) as nat);
        assert(a * 256 + 255 < p * 256) by (nonlinear_arith)
            requires
                a < p,
        ;
    }
}

pub proof fn lemma_be_bytes_len(v: nat, n: nat)
    ensures
        be_bytes(v, n).len() == n,
    decreases n,
{
    if n > 0 {
        lemma_be_bytes_len(v / 256, (n - 1) as nat);
    }
}

/// Writing a number that fits and reading it back gives the number.
pub proof fn lemma_be_value_of_bytes(v: nat, n: nat)
    requires
        v < pow256(n),
    ensures
        be_value(be_bytes(v, n)) == v,
        be_bytes(v, n).len() == n,
    decreases n,
{
    lemma_be_bytes_len(v, n);
    if n > 0 {
        let p = pow256((n - 1) as nat);
        assert(v / 256 < p) by (nonlinear_arith)
            requires
                v < 256 * p,
        ;
        lemma_be_value_of_bytes(v / 256, (n - 1) as nat);
        let s = be_bytes(v, n);
        assert(s.drop_last() =~= be_bytes(v / 256, (n - 1) as nat));
    }
}

/// Reading bytes and writing the number back gives the same bytes.
pub proof fn lemma_be_bytes_of_value(s: Seq<u8>)
    ensures
        be_bytes(be_value(s), s.len()) == s,
    decreases s.len(),
{
    if s.len() > 0 {
        lemma_be_bytes_of_value(s.drop_last());
        let v = be_value(s);
        assert(v / 256 == be_value(s.drop_last()));
        assert((v % 256) as u8 == s.last());
        assert(be_bytes(v, s.len()) =~= s.drop_last().push(s.last()));
    }
}

/// Reads `width` bytes at `pos` as a big-endian number.
pub fn read_be(data: &[u8], pos: usize, width: usize) -> (v: u64)
    requires
        pos + width <= data@.len(),
        width <= 8,
    ensures
        v == be_value(data@.subrange(pos as int, pos + width)),
{
    let mut acc: u64 = 0;
    let mut k: usize = 0;
    while k < width
        invariant
            pos + width <= data@.len(),
            data@.len() == data.len(),
            width <= 8,
            k <= width,
            acc == be_value(data@.subrange(pos as int, pos + k)),
        decreases width - k,
    {
        proof {
            let s = data@.subrange(pos as int, pos + k);
            lemma_be_value_bound(s);
            lemma_pow256_monotonic(k as nat, 7);
            lemma_pow256_values();
            reveal_with_fuel(pow256, 8);
            assert(acc * 256 + 255 < 0x1_0000_0000_0000_0000) by (nonlinear_arith)
                requires
                    acc < pow256(k as nat),
                    pow256(k as nat) <= pow256(7),
                    pow256(7) * 256 == 0x1_0000_0000_0000_0000,
            ;
            assert(data@.subrange(pos as int, pos + k + 1).drop_last() =~= s);
        }
        acc = acc * 256 + data[pos + k] as u64;
        k = k + 1;
    }
    acc
}

/// Appends the `width` low bytes of `v`, most significant first.
pub fn push_be(out: &mut Vec<u8>, v: u64, width: usize)
    requires
        width <= 8,
    ensures
        final(out)@ == old(out)@ + be_bytes(v as nat, width as nat),
    decreases width,
{
    if width > 0 {
        push_be(out, v / 256, width - 1);
        out.push((v % 256) as u8);
        proof {
            assert(final(out)@ =~= old(out)@ + be_bytes(v as nat, width as nat));
        }
    } else {
        proof {
            assert(final(out)@ =~= old(out)@ + be_bytes(v as nat, width as nat));
        }
    }
}

} // verus!
