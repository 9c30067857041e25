//! Big-endian byte encodings of unsigned integers, as a mathematical model.
use vstd::prelude::*;

verus! {

/// `256` to the power `n`.
pub open spec fn pow256(n: nat) -> nat
    decreases n,
{
    if n == 0 {
        1
    } else {
        256 * pow256((n - 1) as nat)
    }
}

/// The `n` low-order bytes of `v`, most significant first.
pub open spec fn be_bytes(v: nat, n: nat) -> Seq<u8>
    decreases n,
{
    if n == 0 {
        Seq::empty()
    } else {
        be_bytes(v / 256, (n - 1) as nat).push((v % 256) as u8)
    }
}

/// The number that the bytes `s` denote, most significant first.
pub open spec fn be_value(s: Seq<u8>) -> nat
    decreases s.len(),
{
    if s.len() == 0 {
        0
    } else {
        be_value(s.drop_last()) * 256 + s.last() as nat
    }
}

pub proof fn lemma_pow256_positive(n: nat)
    ensures
        pow256(n) >= 1,
    decreases n,
{
    if n > 0 {
        lemma_pow256_positive((n - 1) as nat);
    }
}

pub proof fn lemma_pow256_values()
    ensures
        pow256(7) == 0x100_0000_0000_0000,
        pow256(8) == 0x1_0000_0000_0000_0000,
{
    reveal_with_fuel(pow256, 9);
}

/// `be_bytes(v, n)` has exactly `n` bytes.
pub proof fn lemma_be_bytes_len(v: nat, n: nat)
    ensures
        be_bytes(v, n).len() == n,
    decreases n,
{
    if n > 0 {
        lemma_be_bytes_len(v / 256, (n - 1) as nat);
    }
}

/// A sequence of `k` bytes denotes a number below `256^k`.
pub proof fn lemma_be_value_bound(s: Seq<u8>)
    ensures
        be_value(s) < pow256(s.len()),
    decreases s.len(),
{
    if s.len() > 0 {
        let t = s.drop_last();
        lemma_be_value_bound(t);
        let a: nat = be_value(t);
        let b: nat = s.last() as nat;
        let p: nat = pow256(t.len());
        assert(a * 256 + b < p * 256) by (nonlinear_arith)
            requires
                a < p,
                b < 256,
        ;
    }
}

/// Decoding the `n`-byte big-endian encoding of `v < 256^n` gives back `v`.
pub proof fn lemma_be_value_of_bytes(v: nat, n: nat)
    requires
        v < pow256(n),
    ensures
        be_value(be_bytes(v, n)) == v,
    decreases n,
{
    if n > 0 {
        let q: nat = v / 256;
        let r: nat = v % 256;
        let p: nat = pow256((n - 1) as nat);
        assert(v == q * 256 + r && 0 <= r < 256) by (nonlinear_arith)
            requires
                q == v / 256,
                r == v % 256,
        ;
        assert(q < p) by (nonlinear_arith)
            requires
                v == q * 256 + r,
                0 <= r,
                v < 256 * p,
        ;
        lemma_be_value_of_bytes(q, (n - 1) as nat);
        let s = be_bytes(v, n);
        assert(s.drop_last() =~= be_bytes(q, (n - 1) as nat));
    } else {
        lemma_pow256_positive(n);
    }
}

/// Encoding the number that `s` denotes in `s.len()` bytes gives back `s`.
pub proof fn lemma_be_bytes_of_value(s: Seq<u8>)
    ensures
        be_bytes(be_value(s), s.len()) =~= s,
    decreases s.len(),
{
    if s.len() > 0 {
        let t = s.drop_last();
        let a: nat = be_value(t);
        let b: nat = s.last() as nat;
        let v: nat = a * 256 + b;
        assert(v / 256 == a && v % 256 == b) by (nonlinear_arith)
            requires
                v == a * 256 + b,
                0 <= b < 256,
        ;
        lemma_be_bytes_of_value(t);
        assert(s =~= t.push(s.last()));
    }
}

/// `pow256` grows with its exponent.
pub proof fn lemma_pow256_monotone(m: nat, n: nat)
    requires
        m <= n,
    ensures
        pow256(m) <= pow256(n),
    decreases n - m,
{
    if m < n {
        lemma_pow256_monotone(m, (n - 1) as nat);
    }
}

} // verus!
