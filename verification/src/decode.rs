//! Reading a dynamic byte-string argument back out of an encoded call,
//! following the standard contract-ABI layout: the head word of the
//! argument holds the offset of its tail, whose first word holds the
//! length of the data. Decoding an encoded call recovers the original
//! byte string exactly.

use vstd::prelude::*;

use crate::abi::{
    args_wf, head_word, heads, lemma_heads_index, lemma_heads_len, lemma_tails_chunk,
    lemma_tails_len, lemma_tails_size_monotonic, padded_len, spec_encode_call, spec_word,
    tail_bytes, tail_size, tails, tails_size, AbiArg,
};
use crate::words::{
    lemma_pow256_monotonic, lemma_pow256_u64_bound, lemma_word_val_be_bytes_exact,
    lemma_word_val_nonzero, lemma_word_val_split, lemma_word_val_upper, lemma_word_val_zeros,
    pow256, word_val,
};

verus! {

/// The value of the 32-byte word at `pos`.
pub open spec fn spec_word_at(buf: Seq<u8>, pos: int) -> nat {
    word_val(buf.subrange(pos, pos + 32))
}

/// Decoding of the dynamic byte-string argument `i` of an `n`-argument
/// encoded call: follow the offset in head word `i` to the tail, read the
/// length word there, and take that many data bytes. `None` when any of
/// the three reads would fall outside the buffer.
pub open spec fn spec_decode_bytes(buf: Seq<u8>, i: int, n: int) -> Option<Seq<u8>> {
    if 0 <= i < n && 4 + 32 * n <= buf.len() {
        let off = spec_word_at(buf, 4 + 32 * i) as int;
        if 4 + off + 32 <= buf.len() {
            let len = spec_word_at(buf, 4 + off) as int;
            if 4 + off + 32 + len <= buf.len() {
                Some(buf.subrange(4 + off + 32, 4 + off + 32 + len))
            } else {
                None
            }
        } else {
            None
        }
    } else {
        None
    }
}

/// Reads the 32-byte word at `pos` as a machine integer; `None` when its
/// value does not fit in 64 bits.
pub fn read_word_u64(buf: &Vec<u8>, pos: usize) -> (r: Option<u64>)
    requires
        pos + 32 <= buf@.len(),
    ensures
        match r {
            Some(v) => v as nat == spec_word_at(buf@, pos as int),
            None => spec_word_at(buf@, pos as int) >= pow256(8),
        },
{
    let ghost w = buf@.subrange(pos as int, pos as int + 32);
    proof {
        lemma_pow256_u64_bound();
    }
    let buf_len = buf.len();
    proof {
        assert(buf_len == buf@.len());
    }
    let mut j: usize = 0;
    while j < 24
        invariant
            0 <= j <= 24,
            pos + 32 <= buf@.len(),
            buf@.len() <= usize::MAX,
            w == buf@.subrange(pos as int, pos as int + 32),
            forall|t: int| 0 <= t < j ==> w[t] == 0,
        decreases 24 - j,
    {
        if buf[pos + j] != 0 {
            proof {
                lemma_pow256_u64_bound();
                lemma_word_val_split(w, 24);
                lemma_word_val_nonzero(w.take(24), j as int);
                vstd::arithmetic::mul::lemma_mul_inequality(
                    1,
                    word_val(w.take(24)) as int,
                    pow256(8) as int,
                );
            }
            return None;
        }
        j = j + 1;
    }
    let mut acc: u64 = 0;
    let mut k: usize = 0;
    while k < 8
        invariant
            0 <= k <= 8,
            pos + 32 <= buf@.len(),
            buf@.len() <= usize::MAX,
            w == buf@.subrange(pos as int, pos as int + 32),
            acc as nat == word_val(w.subrange(24, 24 + k as int)),
        decreases 8 - k,
    {
        proof {
            lemma_word_val_upper(w.subrange(24, 24 + k as int));
            lemma_pow256_monotonic((k as nat), 7);
            lemma_pow256_u64_bound();
            assert(w.subrange(24, 24 + k as int + 1).drop_last() =~= w.subrange(24, 24 + k as int));
            assert(w.subrange(24, 24 + k as int + 1).last() == w[24 + k as int]);
            assert(w[24 + k as int] == buf@[pos + 24 + k as int]);
        }
        let byte = buf[pos + 24 + k];
        acc = acc * 256 + (byte as u64);
        k = k + 1;
    }
    proof {
        lemma_word_val_split(w, 24);
        lemma_word_val_zeros(w.take(24));
        vstd::arithmetic::mul::lemma_mul_basics(pow256(8) as int);
        assert(w.skip(24) =~= w.subrange(24, 32));
        lemma_word_val_upper(w.subrange(24, 32));
        lemma_pow256_u64_bound();
    }
    Some(acc)
}

/// Decodes the dynamic byte-string argument `i` of an `n`-argument encoded
/// call, per the standard contract-ABI layout.
pub fn decode_bytes_arg(buf: &Vec<u8>, i: usize, n: usize) -> (r: Option<Vec<u8>>)
    ensures
        match r {
            Some(v) => spec_decode_bytes(buf@, i as int, n as int) == Some(v@),
            None => spec_decode_bytes(buf@, i as int, n as int) is None,
        },
{
    proof {
        lemma_pow256_u64_bound();
    }
    if i >= n {
        return None;
    }
    let blen = buf.len();
    if (blen as u128) < 4 + 32 * (n as u128) {
        return None;
    }
    let hpos = 4 + 32 * i;
    let off64 = match read_word_u64(buf, hpos) {
        Some(v) => v,
        None => {
            return None;
        },
    };
    if (off64 as u128) + 36 > blen as u128 {
        return None;
    }
    let off = off64 as usize;
    let lpos = 4 + off;
    let len64 = match read_word_u64(buf, lpos) {
        Some(v) => v,
        None => {
            return None;
        },
    };
    if (off64 as u128) + 36 + (len64 as u128) > blen as u128 {
        return None;
    }
    let dlen = len64 as usize;
    let start = 4 + off + 32;
    let mut out: Vec<u8> = Vec::new();
    let mut k: usize = 0;
    while k < dlen
        invariant
            0 <= k <= dlen,
            start + dlen <= buf@.len(),
            buf@.len() <= usize::MAX,
            out@ =~= buf@.subrange(start as int, start as int + k as int),
        decreases dlen - k,
    {
        proof {
            assert(buf@.subrange(start as int, start as int + k as int + 1) =~= buf@.subrange(
                start as int,
                start as int + k as int,
            ).push(buf@[start as int + k as int]));
        }
        let byte = buf[start + k];
        out.push(byte);
        k = k + 1;
    }
    proof {
        assert(out@ =~= buf@.subrange(start as int, start as int + dlen as int));
    }
    Some(out)
}

/// The byte string carried by a dynamic argument.
pub open spec fn arg_bytes(a: AbiArg) -> Seq<u8> {
    match a {
        AbiArg::Bytes(b) => b,
        _ => Seq::<u8>::empty(),
    }
}

/// Dynamic byte-string arguments round-trip: decoding an encoded call with
/// the standard contract-ABI layout recovers the original byte string
/// exactly, for every argument tuple and every dynamic argument position.
pub proof fn lemma_bytes_round_trip(selector: Seq<u8>, args: Seq<AbiArg>, i: int)
    requires
        selector.len() == 4,
        args_wf(args),
        0 <= i < args.len(),
        args[i] is Bytes,
        32 * args.len() + tails_size(args, args.len() as int) < pow256(8),
    ensures
        spec_decode_bytes(spec_encode_call(selector, args), i, args.len() as int) == Some(
            arg_bytes(args[i]),
        ),
{
    let n = args.len() as int;
    let buf = spec_encode_call(selector, args);
    let b = arg_bytes(args[i]);
    lemma_heads_len(args, n);
    lemma_tails_len(args, n);
    assert(buf.len() == 4 + 32 * n + tails_size(args, n));
    lemma_tails_size_monotonic(args, i + 1, n);
    assert(tails_size(args, i + 1) == tails_size(args, i) + tail_size(args[i]));
    assert(tail_size(args[i]) == 32 + padded_len(b.len()));
    assert(padded_len(b.len()) >= b.len());
    // The head word of argument i holds the offset of its tail.
    let off = 32 * n + tails_size(args, i) as int;
    lemma_heads_index(args, n, i);
    assert(buf.subrange(4 + 32 * i, 4 + 32 * i + 32) =~= heads(args, n).subrange(
        32 * i,
        32 * i + 32,
    ));
    assert(head_word(args, i) == spec_word(off as nat));
    lemma_pow256_monotonic(8, 32);
    lemma_word_val_be_bytes_exact(off as nat, 32);
    assert(spec_word_at(buf, 4 + 32 * i) == off);
    assert(4 + off + 32 <= buf.len());
    // The tail of argument i: its length word, then its data.
    lemma_tails_chunk(args, n, i);
    let ts = tails_size(args, i) as int;
    let tsz = tail_size(args[i]) as int;
    let chunk = tails(args, n).subrange(ts, ts + tsz);
    assert(chunk =~= tail_bytes(args[i]));
    assert(buf.subrange(4 + off, 4 + off + 32) =~= chunk.subrange(0, 32));
    assert(chunk.subrange(0, 32) =~= spec_word(b.len()));
    lemma_word_val_be_bytes_exact(b.len(), 32);
    assert(spec_word_at(buf, 4 + off) == b.len());
    assert(4 + off + 32 + b.len() <= buf.len());
    assert(buf.subrange(4 + off + 32, 4 + off + 32 + b.len() as int) =~= chunk.subrange(
        32,
        32 + b.len() as int,
    ));
    assert(chunk.subrange(32, 32 + b.len() as int) =~= b);
}

} // verus!
