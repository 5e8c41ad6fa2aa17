//! Big-endian fixed-width integers as byte sequences.
use vstd::arithmetic::div_mod::*;
use vstd::prelude::*;

verus! {

/// 256 raised to the power `n`.
pub open spec fn pow256(n: nat) -> nat
    decreases n,
{
    if n == 0 {
        1
    } else {
        256 * pow256((n - 1) as nat)
    }
}

/// The `n` low-order bytes of `v`, most significant first.
pub open spec fn be_bytes(v: nat, n: nat) -> Seq<u8>
    decreases n,
{
    if n == 0 {
        Seq::empty()
    } else {
        be_bytes(v / 256, (n - 1) as nat).push((v % 256) as u8)
    }
}

/// The number that `s` spells in base 256, most significant byte first.
pub open spec fn be_value(s: Seq<u8>) -> nat
    decreases s.len(),
{
    if s.len() == 0 {
        0
    } else {
        be_value(s.drop_last()) * 256 + s.last() as nat
    }
}

pub proof fn lemma_pow256_positive(n: nat)
    ensures
        pow256(n) > 0,
    decreases n,
{
    if n > 0 {
        lemma_pow256_positive((n - 1) as nat);
    }
}

pub proof fn lemma_be_bytes_len(v: nat, n: nat)
    ensures
        be_bytes(v, n).len() == n,
    decreases n,
{
    if n > 0 {
        lemma_be_bytes_len(v / 256, (n - 1) as nat);
    }
}

/// A big-endian number of `s.len()` bytes is below `256^s.len()`.
pub proof fn lemma_be_value_bound(s: Seq<u8>)
    ensures
        be_value(s) < pow256(s.len()),
    decreases s.len(),
{
    if s.len() > 0 {
        let p = pow256((s.len() - 1) as nat);
        let h = be_value(s.drop_last());
        lemma_be_value_bound(s.drop_last());
        assert(h * 256 + s.last() < 256 * p) by (nonlinear_arith)
            requires
                h < p,
                s.last() < 256,
        ;
    }
}

/// Reading back the `n` bytes of a value below `256^n` gives the value.
pub proof fn lemma_be_round_trip(v: nat, n: nat)
    requires
        v < pow256(n),
    ensures
        be_value(be_bytes(v, n)) == v,
    decreases n,
{
    if n > 0 {
        let p = pow256((n - 1) as nat);
        assert(v / 256 < p) by {
            lemma_div_strictly_bounded_by_multiple(v, 256, p);
        }
        lemma_be_round_trip(v / 256, (n - 1) as nat);
        let s = be_bytes(v, n);
        assert(s.drop_last() =~= be_bytes(v / 256, (n - 1) as nat));
        lemma_fundamental_div_mod(v as int, 256);
    }
}

proof fn lemma_div_strictly_bounded_by_multiple(v: nat, d: nat, p: nat)
    requires
        d > 0,
        v < d * p,
    ensures
        v / d < p,
{
    lemma_fundamental_div_mod(v as int, d as int);
    assert(v / d < p) by (nonlinear_arith)
        requires
            v == d * (v / d) + v % d,
            0 <= v % d,
            v < d * p,
            d > 0,
    ;
}

/// Appends the `n` low-order bytes of `v`, most significant first.
pub fn push_be(buf: &mut Vec<u8>, v: u128, n: usize)
    requires
        n <= 16,
        v < pow256(n as nat),
    ensures
        final(buf)@ == old(buf)@ + be_bytes(v as nat, n as nat),
    decreases n,
{
    if n > 0 {
        proof {
            lemma_pow256_positive((n - 1) as nat);
            lemma_div_strictly_bounded_by_multiple(v as nat, 256, pow256((n - 1) as nat));
        }
        push_be(buf, v / 256, n - 1);
        buf.push((v % 256) as u8);
        proof {
            let b = old(buf)@;
            assert(final(buf)@ =~= b + be_bytes(v as nat, n as nat));
        }
    }
}

/// `256^n` is at most `2^128` for `n <= 16`.
pub proof fn lemma_pow256_le_u128(n: nat)
    requires
        n <= 16,
    ensures
        pow256(n) <= u128::MAX + 1,
{
    reveal_with_fuel(pow256, 17);
    assert(pow256(16) == u128::MAX + 1);
    lemma_pow256_monotonic(n, 16);
}

pub proof fn lemma_pow256_monotonic(a: nat, b: nat)
    requires
        a <= b,
    ensures
        pow256(a) <= pow256(b),
    decreases b,
{
    if a < b {
        lemma_pow256_monotonic(a, (b - 1) as nat);
        lemma_pow256_positive((b - 1) as nat);
    }
}

} // verus!
