//! Minimal big-endian representation of natural numbers.

use vstd::prelude::*;

verus! {

/// The number that the bytes `s` denote, read most significant byte first.
pub open spec fn be_value(s: Seq<u8>) -> nat
    decreases s.len(),
{
    if s.len() == 0 {
        0
    } else {
        be_value(s.drop_last()) * 256 + s.last() as nat
    }
}

/// The shortest big-endian representation of `n`: no bytes for zero, and no
/// leading zero byte otherwise.
pub open spec fn be_bytes(n: nat) -> Seq<u8>
    decreases n,
{
    if n == 0 {
        Seq::empty()
    } else {
        be_bytes(n / 256).push((n % 256) as u8)
    }
}

/// Reading back the shortest representation of `n` gives `n`.
pub proof fn lemma_be_value_of_be_bytes(n: nat)
    ensures
        be_value(be_bytes(n)) == n,
    decreases n,
{
    if n != 0 {
        lemma_be_value_of_be_bytes(n / 256);
        let s = be_bytes(n);
        assert(s.drop_last() =~= be_bytes(n / 256));
        assert(s.last() == (n % 256) as u8);
    }
}

/// The shortest representation of a positive number does not start with zero.
pub proof fn lemma_be_bytes_no_leading_zero(n: nat)
    requires
        n > 0,
    ensures
        be_bytes(n).len() > 0,
        be_bytes(n)[0] != 0,
    decreases n,
{
    if n / 256 != 0 {
        lemma_be_bytes_no_leading_zero(n / 256);
        assert(be_bytes(n)[0] == be_bytes(n / 256)[0]);
    } else {
        assert(be_bytes(n / 256) =~= Seq::<u8>::empty());
        assert(be_bytes(n) =~= seq![(n % 256) as u8]);
        assert(be_bytes(n)[0] == (n % 256) as u8);
    }
}

/// Bytes that do not start with zero are the shortest representation of the
/// number that they denote, and that number is positive unless there are no
/// bytes at all.
pub proof fn lemma_be_bytes_of_be_value(s: Seq<u8>)
    requires
        s.len() > 0 ==> s[0] != 0,
    ensures
        be_bytes(be_value(s)) == s,
        s.len() > 0 ==> be_value(s) > 0,
    decreases s.len(),
{
    if s.len() == 0 {
    } else if s.len() == 1 {
        assert(s.drop_last() =~= Seq::<u8>::empty());
        assert(be_value(s.drop_last()) == 0);
        assert(be_value(s) == s[0]);
        assert(be_bytes(0) =~= Seq::<u8>::empty());
        assert(be_bytes(be_value(s)) =~= s);
    } else {
        let front = s.drop_last();
        assert(front[0] == s[0]);
        lemma_be_bytes_of_be_value(front);
        let n = be_value(s);
        assert(n / 256 == be_value(front));
        assert(n % 256 == s.last());
        assert(be_bytes(n) =~= s);
    }
}

/// 256 to the power `k`.
pub open spec fn pow256(k: nat) -> nat
    decreases k,
{
    if k == 0 {
        1
    } else {
        256 * pow256((k - 1) as nat)
    }
}

/// Eight bytes hold exactly the numbers below 2^64.
pub proof fn lemma_pow256_eight()
    ensures
        pow256(8) == 0x1_0000_0000_0000_0000,
        pow256(4) == 0x1_0000_0000,
{
    reveal_with_fuel(pow256, 9);
}

/// `k` bytes denote a number below 256^k.
pub proof fn lemma_be_value_bound(s: Seq<u8>)
    ensures
        be_value(s) < pow256(s.len()),
    decreases s.len(),
{
    if s.len() != 0 {
        lemma_be_value_bound(s.drop_last());
    }
}

/// A number below 256^k has a shortest representation of at most `k` bytes.
pub proof fn lemma_be_bytes_len_bound(n: nat, k: nat)
    requires
        n < pow256(k),
    ensures
        be_bytes(n).len() <= k,
    decreases k,
{
    if n != 0 {
        lemma_be_bytes_len_bound(n / 256, (k - 1) as nat);
    }
}

/// The number of bytes in the shortest big-endian representation of `n`.
pub fn be_length(n: u64) -> (k: usize)
    ensures
        k == be_bytes(n as nat).len(),
        k <= 8,
        n > 0 ==> k >= 1,
    decreases n,
{
    proof {
        lemma_pow256_eight();
        lemma_be_bytes_len_bound(n as nat, 8);
    }
    if n == 0 {
        0
    } else {
        let k: usize = be_length(n / 256);
        k + 1
    }
}

/// Appends the shortest big-endian representation of `n` to `out`.
pub fn push_be(n: u64, out: &mut Vec<u8>)
    ensures
        final(out)@ == old(out)@ + be_bytes(n as nat),
    decreases n,
{
    if n != 0 {
        push_be(n / 256, out);
        let low: u8 = (n % 256) as u8;
        out.push(low);
        assert(out@ =~= old(out)@ + be_bytes(n as nat));
    } else {
        assert(out@ =~= old(out)@ + be_bytes(n as nat));
    }
}

/// Reads at most eight bytes as a big-endian number.
pub fn read_be(digits: &[u8]) -> (n: u64)
    requires
        digits@.len() <= 8,
    ensures
        n == be_value(digits@),
{
    let mut acc: u64 = 0;
    let mut i: usize = 0;
    while i < digits.len()
        invariant
            i <= digits@.len() <= 8,
            acc == be_value(digits@.take(i as int)),
        decreases digits@.len() - i,
    {
        proof {
            let next = digits@.take(i + 1);
            assert(next.drop_last() =~= digits@.take(i as int));
            lemma_be_value_bound(digits@.take(i as int));
            lemma_be_value_bound(next);
            lemma_pow256_eight();
            lemma_pow256_monotonic((i + 1) as nat, 8);
        }
        acc = acc * 256 + digits[i] as u64;
        i = i + 1;
    }
    assert(digits@.take(i as int) =~= digits@);
    acc
}

/// Powers of 256 grow with the exponent.
pub proof fn lemma_pow256_monotonic(j: nat, k: nat)
    requires
        j <= k,
    ensures
        pow256(j) <= pow256(k),
    decreases k,
{
    if j < k {
        lemma_pow256_monotonic(j, (k - 1) as nat);
    }
}

} // verus!
