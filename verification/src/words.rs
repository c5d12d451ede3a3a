//! Big-endian byte words: the 32-byte words of the contract ABI and the
//! 20-byte addresses of the transaction envelope are both big-endian
//! encodings of an unsigned value, so both are specified by one pair of
//! functions: `be_bytes` (value to bytes) and `word_val` (bytes to value).

use vstd::prelude::*;

verus! {

/// 256 to the power `k`.
pub open spec fn pow256(k: nat) -> nat
    decreases k,
{
    if k == 0 {
        1
    } else {
        256 * pow256((k - 1) as nat)
    }
}

/// The `n`-byte big-endian encoding of `v % pow256(n)`.
pub open spec fn be_bytes(v: nat, n: nat) -> Seq<u8> {
    Seq::new(n, |i: int| ((v / pow256((n - 1 - i) as nat)) % 256) as u8)
}

/// The value of a big-endian byte string.
pub open spec fn word_val(s: Seq<u8>) -> nat
    decreases s.len(),
{
    if s.len() == 0 {
        0
    } else {
        word_val(s.drop_last()) * 256 + s.last() as nat
    }
}

/// A sequence of `n` zero bytes.
pub open spec fn zero_bytes(n: nat) -> Seq<u8> {
    Seq::new(n, |i: int| 0u8)
}

pub proof fn lemma_pow256_positive(k: nat)
    ensures
        pow256(k) >= 1,
    decreases k,
{
    if k > 0 {
        lemma_pow256_positive((k - 1) as nat)
    }
}

pub proof fn lemma_pow256_monotonic(j: nat, k: nat)
    requires
        j <= k,
    ensures
        pow256(j) <= pow256(k),
    decreases k,
{
    if j < k {
        lemma_pow256_monotonic(j, (k - 1) as nat);
        lemma_pow256_positive((k - 1) as nat);
    }
}

/// Dropping the least-significant byte of a big-endian encoding encodes
/// the value divided by 256.
pub proof fn lemma_be_bytes_drop_last(v: nat, n: nat)
    requires
        n >= 1,
    ensures
        be_bytes(v, n).drop_last() =~= be_bytes(v / 256, (n - 1) as nat),
{
    let a = be_bytes(v, n).drop_last();
    let b = be_bytes(v / 256, (n - 1) as nat);
    assert forall|i: int| 0 <= i < n - 1 implies a[i] == b[i] by {
        let k = (n - 2 - i) as nat;
        assert(pow256((k + 1) as nat) == 256 * pow256(k));
        lemma_pow256_positive(k);
        vstd::arithmetic::div_mod::lemma_div_denominator(v as int, 256, pow256(k) as int);
    }
}

/// Reading back a big-endian encoding yields the encoded value, reduced
/// modulo the capacity of the word.
pub proof fn lemma_word_val_be_bytes(v: nat, n: nat)
    ensures
        word_val(be_bytes(v, n)) == v % pow256(n),
    decreases n,
{
    lemma_pow256_positive(n);
    if n == 0 {
        assert(v % 1 == 0) by (nonlinear_arith);
    } else {
        let m = (n - 1) as nat;
        lemma_be_bytes_drop_last(v, n);
        lemma_word_val_be_bytes(v / 256, m);
        lemma_pow256_positive(m);
        assert(be_bytes(v, n).last() == ((v / pow256(0)) % 256) as u8);
        assert(pow256(0) == 1);
        assert(v / 1 == v) by (nonlinear_arith);
        // v % (256 * pow256(m)) == 256 * ((v / 256) % pow256(m)) + v % 256
        vstd::arithmetic::div_mod::lemma_mod_breakdown(v as int, 256, pow256(m) as int);
    }
}

/// A value below the capacity of the word is read back exactly.
pub proof fn lemma_word_val_be_bytes_exact(v: nat, n: nat)
    requires
        v < pow256(n),
    ensures
        word_val(be_bytes(v, n)) == v,
{
    lemma_word_val_be_bytes(v, n);
    lemma_pow256_positive(n);
    vstd::arithmetic::div_mod::lemma_small_mod(v, pow256(n));
}

/// A value below `pow256(m)` encoded into `n >= m` bytes starts with
/// `n - m` zero bytes followed by its `m`-byte encoding.
pub proof fn lemma_be_bytes_leading_zeros(v: nat, m: nat, n: nat)
    requires
        m <= n,
        v < pow256(m),
    ensures
        be_bytes(v, n) =~= zero_bytes((n - m) as nat) + be_bytes(v, m),
{
    let lhs = be_bytes(v, n);
    let rhs = zero_bytes((n - m) as nat) + be_bytes(v, m);
    assert forall|i: int| 0 <= i < n implies lhs[i] == rhs[i] by {
        let k = (n - 1 - i) as nat;
        lemma_pow256_positive(k);
        if i < n - m {
            lemma_pow256_monotonic(m, k);
            vstd::arithmetic::div_mod::lemma_basic_div(v as int, pow256(k) as int);
        }
    }
}

/// Upper bounds used to justify `u128` arithmetic on powers of 256.
pub proof fn lemma_pow256_u128_bound()
    ensures
        pow256(15) < u128::MAX,
        pow256(16) == 0x100000000000000000000000000000000,
{
    assert(pow256(0) == 1);
    assert(pow256(1) == 256);
    assert(pow256(2) == 0x10000);
    assert(pow256(3) == 0x1000000);
    assert(pow256(4) == 0x100000000);
    assert(pow256(5) == 0x10000000000);
    assert(pow256(6) == 0x1000000000000);
    assert(pow256(7) == 0x100000000000000);
    assert(pow256(8) == 0x10000000000000000);
    assert(pow256(9) == 0x1000000000000000000);
    assert(pow256(10) == 0x100000000000000000000);
    assert(pow256(11) == 0x10000000000000000000000);
    assert(pow256(12) == 0x1000000000000000000000000);
    assert(pow256(13) == 0x100000000000000000000000000);
    assert(pow256(14) == 0x10000000000000000000000000000);
    assert(pow256(15) == 0x1000000000000000000000000000000);
    assert(pow256(16) == 0x100000000000000000000000000000000);
}

/// The powers of 256 at the 64-bit boundary.
pub proof fn lemma_pow256_u64_bound()
    ensures
        pow256(7) == 0x100000000000000,
        pow256(8) == 0x10000000000000000,
{
    assert(pow256(0) == 1);
    assert(pow256(1) == 256);
    assert(pow256(2) == 0x10000);
    assert(pow256(3) == 0x1000000);
    assert(pow256(4) == 0x100000000);
    assert(pow256(5) == 0x10000000000);
    assert(pow256(6) == 0x1000000000000);
    assert(pow256(7) == 0x100000000000000);
    assert(pow256(8) == 0x10000000000000000);
}

/// Appends the `n`-byte big-endian encoding of `v` to `out`.
pub fn push_be_bytes(out: &mut Vec<u8>, v: u128, n: usize)
    requires
        n <= 16,
        (v as nat) < pow256(n as nat),
        old(out)@.len() + n <= usize::MAX,
    ensures
        final(out)@ == old(out)@ + be_bytes(v as nat, n as nat),
{
    let ghost base = old(out)@;
    let mut p: u128 = 1;
    let mut j: usize = 1;
    while j < n
        invariant
            1 <= j,
            j <= n || j == 1,
            n <= 16,
            p == pow256((j - 1) as nat),
        decreases n - j,
    {
        proof {
            lemma_pow256_monotonic(j as nat, 15);
            lemma_pow256_u128_bound();
        }
        p = p * 256;
        j = j + 1;
    }
    let mut k: usize = 0;
    while k < n
        invariant
            0 <= k <= n,
            n <= 16,
            (v as nat) < pow256(n as nat),
            k < n ==> p == pow256((n - 1 - k) as nat),
            out@ =~= base + be_bytes(v as nat, n as nat).take(k as int),
            base.len() + n <= usize::MAX,
        decreases n - k,
    {
        proof {
            lemma_pow256_positive((n - 1 - k) as nat);
        }
        let byte: u8 = ((v / p) % 256) as u8;
        proof {
            assert(be_bytes(v as nat, n as nat)[k as int] == (((v as nat) / pow256(
                (n - 1 - k) as nat,
            )) % 256) as u8);
            assert(base + be_bytes(v as nat, n as nat).take(k as int + 1) =~= (base + be_bytes(
                v as nat,
                n as nat,
            ).take(k as int)).push(byte));
        }
        out.push(byte);
        if k + 1 < n {
            proof {
                assert(pow256((n - 1 - k) as nat) == 256 * pow256((n - 2 - k) as nat));
                vstd::arithmetic::div_mod::lemma_div_multiples_vanish(
                    pow256((n - 2 - k) as nat) as int,
                    256,
                );
            }
            p = p / 256;
        }
        k = k + 1;
    }
    proof {
        assert(be_bytes(v as nat, n as nat).take(n as int) =~= be_bytes(v as nat, n as nat));
    }
}

/// Appends `n` zero bytes to `out`.
pub fn push_zero_bytes(out: &mut Vec<u8>, n: usize)
    requires
        old(out)@.len() + n <= usize::MAX,
    ensures
        final(out)@ == old(out)@ + zero_bytes(n as nat),
{
    let mut k: usize = 0;
    while k < n
        invariant
            0 <= k <= n,
            out@ =~= old(out)@ + zero_bytes(k as nat),
            old(out)@.len() + n <= usize::MAX,
        decreases n - k,
    {
        proof {
            assert(old(out)@ + zero_bytes((k + 1) as nat) =~= (old(out)@ + zero_bytes(
                k as nat,
            )).push(0u8));
        }
        out.push(0u8);
        k = k + 1;
    }
}


/// A big-endian byte string splits at any point into its high part,
/// scaled by the capacity of the low part, plus its low part.
pub proof fn lemma_word_val_split(s: Seq<u8>, k: int)
    requires
        0 <= k <= s.len(),
    ensures
        word_val(s) == word_val(s.take(k)) * pow256((s.len() - k) as nat) + word_val(s.skip(k)),
    decreases s.len(),
{
    if k == s.len() {
        assert(s.take(k) =~= s);
        assert(s.skip(k) =~= Seq::<u8>::empty());
        assert(pow256(0) == 1);
        vstd::arithmetic::mul::lemma_mul_basics(word_val(s.take(k)) as int);
    } else {
        let sd = s.drop_last();
        lemma_word_val_split(sd, k);
        assert(s.take(k) =~= sd.take(k));
        assert(s.skip(k).drop_last() =~= sd.skip(k));
        assert(s.skip(k).last() == s.last());
        let h = word_val(s.take(k)) as int;
        let m = (sd.len() - k) as nat;
        let p = pow256(m) as int;
        let w = word_val(sd.skip(k)) as int;
        let b = s.last() as int;
        assert(word_val(sd) == h * p + w);
        assert(word_val(s) == word_val(sd) * 256 + b);
        assert(word_val(s.skip(k)) == w * 256 + b);
        assert(pow256((m + 1) as nat) == 256 * pow256(m));
        assert((h * p + w) * 256 + b == h * (256 * p) + (w * 256 + b)) by (nonlinear_arith);
    }
}

/// The value of an `n`-byte string is below `pow256(n)`.
pub proof fn lemma_word_val_upper(s: Seq<u8>)
    ensures
        word_val(s) < pow256(s.len()),
    decreases s.len(),
{
    if s.len() == 0 {
    } else {
        let m = (s.len() - 1) as nat;
        lemma_word_val_upper(s.drop_last());
        vstd::arithmetic::mul::lemma_mul_inequality(
            word_val(s.drop_last()) as int,
            pow256(m) as int - 1,
            256,
        );
        assert(pow256((m + 1) as nat) == 256 * pow256(m));
    }
}

/// A byte string of zeros has value zero.
pub proof fn lemma_word_val_zeros(s: Seq<u8>)
    requires
        forall|j: int| 0 <= j < s.len() ==> s[j] == 0,
    ensures
        word_val(s) == 0,
    decreases s.len(),
{
    if s.len() > 0 {
        lemma_word_val_zeros(s.drop_last());
    }
}

/// A byte string with a nonzero byte has a nonzero value.
pub proof fn lemma_word_val_nonzero(s: Seq<u8>, j: int)
    requires
        0 <= j < s.len(),
        s[j] != 0,
    ensures
        word_val(s) >= 1,
    decreases s.len(),
{
    if j == s.len() - 1 {
    } else {
        lemma_word_val_nonzero(s.drop_last(), j);
        vstd::arithmetic::mul::lemma_mul_inequality(1, word_val(s.drop_last()) as int, 256);
    }
}

} // verus!
