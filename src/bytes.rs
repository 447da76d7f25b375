//! Unsigned numbers as big-endian byte strings: the arithmetic model, its
//! lemmas, and the two loops that read and write such numbers.
use vstd::prelude::*;
use vstd::arithmetic::div_mod::{lemma_div_denominator, lemma_fundamental_div_mod_converse};

verus! {

/// `256` raised to `n`.
pub open spec fn pow256(n: nat) -> nat
    decreases n,
{
    if n == 0 {
        1
    } else {
        256 * pow256((n - 1) as nat)
    }
}

/// The number that `b` spells, most significant byte first.
pub open spec fn be_value(b: Seq<u8>) -> nat
    decreases b.len(),
{
    if b.len() == 0 {
        0
    } else {
        be_value(b.drop_last()) * 256 + b.last() as nat
    }
}

/// The `w` lowest bytes of `v`, most significant first.
pub open spec fn be_bytes(v: nat, w: nat) -> Seq<u8>
    decreases w,
{
    if w == 0 {
        seq![]
    } else {
        be_bytes(v / 256, (w - 1) as nat).push((v % 256) as u8)
    }
}

/// Powers of 256 are positive.
pub proof fn lemma_pow256_positive(n: nat)
    ensures
        pow256(n) >= 1,
    decreases n,
{
    if n > 0 {
        lemma_pow256_positive((n - 1) as nat);
    }
}

/// A byte string of length `n` spells a number below `256^n`.
pub proof fn lemma_be_value_bound(b: Seq<u8>)
    ensures
        be_value(b) < pow256(b.len()),
    decreases b.len(),
{
    if b.len() > 0 {
        let p = b.drop_last();
        lemma_be_value_bound(p);
        let v = be_value(p);
        let q = pow256(p.len());
        let l = b.last() as int;
        assert(v * 256 + l < 256 * q) by (nonlinear_arith)
            requires
                v < q,
                0 <= l < 256,
        ;
    }
}

/// `be_bytes` always has the requested length.
pub proof fn lemma_be_bytes_len(v: nat, w: nat)
    ensures
        be_bytes(v, w).len() == w,
    decreases w,
{
    if w > 0 {
        lemma_be_bytes_len(v / 256, (w - 1) as nat);
    }
}

/// Writing a number that fits and reading it back gives the number.
pub proof fn lemma_value_of_bytes(v: nat, w: nat)
    requires
        v < pow256(w),
    ensures
        be_value(be_bytes(v, w)) == v,
    decreases w,
{
    if w == 0 {
    } else {
        let q = pow256((w - 1) as nat);
        assert(v / 256 < q) by {
            lemma_fundamental_div_mod_converse(v as int, 256, (v / 256) as int, (v % 256) as int);
            assert((v / 256) * 256 <= v) by (nonlinear_arith)
                requires
                    v % 256 >= 0,
                    v == (v / 256) * 256 + v % 256,
            ;
            assert((v / 256) < q) by (nonlinear_arith)
                requires
                    (v / 256) * 256 <= v,
                    v < 256 * q,
            ;
        }
        lemma_value_of_bytes(v / 256, (w - 1) as nat);
        let b = be_bytes(v, w);
        assert(b.drop_last() =~= be_bytes(v / 256, (w - 1) as nat));
    }
}

/// Reading a byte string as a number and writing it back gives the string.
pub proof fn lemma_bytes_of_value(b: Seq<u8>)
    ensures
        be_bytes(be_value(b), b.len()) == b,
    decreases b.len(),
{
    if b.len() > 0 {
        let p = b.drop_last();
        lemma_bytes_of_value(p);
        let v = be_value(b);
        lemma_fundamental_div_mod_converse(v as int, 256, be_value(p) as int, b.last() as int);
        assert(be_bytes(v, b.len()) =~= p.push(b.last()));
        assert(p.push(b.last()) =~= b);
    }
}

/// Adding one more byte at the front of the low bytes of `v`.
proof fn lemma_be_bytes_front(v: nat, k: nat)
    ensures
        be_bytes(v, k + 1) == seq![((v / pow256(k)) % 256) as u8] + be_bytes(v, k),
    decreases k,
{
    if k == 0 {
        assert(v / 1 == v);
        assert(be_bytes(v / 256, 0) + seq![(v % 256) as u8] =~= seq![(v % 256) as u8]);
        assert(be_bytes(v, 1) =~= seq![((v / pow256(0)) % 256) as u8] + be_bytes(v, 0));
    } else {
        lemma_be_bytes_front(v / 256, (k - 1) as nat);
        lemma_pow256_positive((k - 1) as nat);
        lemma_div_denominator(v as int, 256, pow256((k - 1) as nat) as int);
        assert(be_bytes(v, k + 1) =~= seq![((v / pow256(k)) % 256) as u8] + be_bytes(v, k));
    }
}

/// The number spelled by the first `w` bytes of `b`.
pub fn read_be(b: &[u8], w: usize) -> (r: u128)
    requires
        w <= 16,
        w <= b@.len(),
    ensures
        r == be_value(b@.subrange(0, w as int)),
{
    let mut acc: u128 = 0;
    let mut i: usize = 0;
    while i < w
        invariant
            i <= w,
            w <= 16,
            w <= b@.len(),
            acc == be_value(b@.subrange(0, i as int)),
        decreases w - i,
    {
        proof {
            lemma_be_value_bound(b@.subrange(0, i as int));
            assert(pow256(i as nat) <= pow256(15)) by {
                lemma_pow256_monotone(i as nat, 15);
            }
            assert(pow256(15) == 0x1_0000_0000_0000_0000_0000_0000_0000_00nat) by {
                reveal_with_fuel(pow256, 16);
            }
            let s = b@.subrange(0, i as int + 1);
            assert(s.drop_last() =~= b@.subrange(0, i as int));
        }
        acc = acc * 256 + b[i] as u128;
        i = i + 1;
    }
    acc
}

/// Powers of 256 grow with the exponent.
proof fn lemma_pow256_monotone(a: nat, b: nat)
    requires
        a <= b,
    ensures
        pow256(a) <= pow256(b),
    decreases b,
{
    if a < b {
        lemma_pow256_monotone(a, (b - 1) as nat);
        lemma_pow256_positive((b - 1) as nat);
    }
}

/// Appends the `w` bytes of `v`, most significant first.
pub fn write_be(out: &mut Vec<u8>, v: u128, w: usize)
    requires
        w <= 16,
        v < pow256(w as nat),
    ensures
        final(out)@ == old(out)@ + be_bytes(v as nat, w as nat),
{
    let mut tmp: Vec<u8> = vec![0u8; w];
    let mut x: u128 = v;
    let mut k: usize = 0;
    proof {
        assert(pow256(0) == 1);
        assert(v as nat / 1 == v as nat);
        assert(tmp@.subrange(w as int, w as int) =~= be_bytes(v as nat, 0));
    }
    while k < w
        invariant
            k <= w,
            tmp@.len() == w,
            x == v as nat / pow256(k as nat),
            tmp@.subrange(w - k, w as int) == be_bytes(v as nat, k as nat),
        decreases w - k,
    {
        proof {
            lemma_be_bytes_front(v as nat, k as nat);
            lemma_pow256_positive(k as nat);
            lemma_div_denominator(v as int, pow256(k as nat) as int, 256);
        }
        tmp.set(w - 1 - k, (x % 256) as u8);
        x = x / 256;
        k = k + 1;
        proof {
            assert(tmp@.subrange(w - k, w as int) =~= be_bytes(v as nat, k as nat));
        }
    }
    proof {
        assert(tmp@.subrange(0, w as int) =~= tmp@);
    }
    out.append(&mut tmp);
}

} // verus!
