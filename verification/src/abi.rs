//! Solidity-compatible contract-ABI encoding of a heterogeneous argument
//! tuple: a head/tail layout over 32-byte words, in which a static argument
//! (an unsigned integer or a fixed 32-byte word) occupies one head word and
//! a dynamic byte string's head word holds the offset, from the start of
//! the argument area, of its tail (a length word followed by the data,
//! zero-padded to a word boundary).

use vstd::prelude::*;

use crate::selector::{spec_selector, selector_bytes, Operation};
use crate::words::{
    be_bytes, lemma_be_bytes_leading_zeros, lemma_pow256_u128_bound, push_be_bytes,
    push_zero_bytes, zero_bytes,
};

verus! {

/// One typed argument of a precompile call.
pub enum AbiValue {
    /// A dynamic byte string.
    Bytes(Vec<u8>),
    /// An unsigned integer, encoded as one big-endian word.
    Uint(u128),
    /// A fixed 32-byte word (a hash).
    Word(Vec<u8>),
}

/// The mathematical model of one argument.
pub enum AbiArg {
    Bytes(Seq<u8>),
    Uint(u128),
    Word(Seq<u8>),
}

impl View for AbiValue {
    type V = AbiArg;

    open spec fn view(&self) -> AbiArg {
        match self {
            AbiValue::Bytes(b) => AbiArg::Bytes(b@),
            AbiValue::Uint(v) => AbiArg::Uint(*v),
            AbiValue::Word(w) => AbiArg::Word(w@),
        }
    }
}

/// The models of a sequence of arguments.
pub open spec fn arg_views(s: Seq<AbiValue>) -> Seq<AbiArg> {
    s.map_values(|v: AbiValue| v@)
}

/// `n` rounded up to a multiple of the 32-byte word size.
pub open spec fn padded_len(n: nat) -> nat {
    if n % 32 == 0 {
        n
    } else {
        (n + 32 - (n % 32)) as nat
    }
}

/// A fixed word argument must hold exactly 32 bytes.
pub open spec fn arg_wf(a: AbiArg) -> bool {
    match a {
        AbiArg::Word(w) => w.len() == 32,
        _ => true,
    }
}

pub open spec fn args_wf(args: Seq<AbiArg>) -> bool {
    forall|i: int| 0 <= i < args.len() ==> arg_wf(#[trigger] args[i])
}

/// The 32-byte big-endian word encoding `v`.
pub open spec fn spec_word(v: nat) -> Seq<u8> {
    be_bytes(v, 32)
}

/// The number of tail bytes an argument contributes: a dynamic byte string
/// contributes its length word plus its padded data, a static argument
/// contributes none.
pub open spec fn tail_size(a: AbiArg) -> nat {
    match a {
        AbiArg::Bytes(b) => 32 + padded_len(b.len()),
        _ => 0,
    }
}

/// Total tail bytes contributed by the first `i` arguments.
pub open spec fn tails_size(args: Seq<AbiArg>, i: int) -> nat
    decreases i,
{
    if i <= 0 {
        0
    } else {
        tails_size(args, i - 1) + tail_size(args[i - 1])
    }
}

/// The head word of argument `i`: the value itself for a static argument,
/// the offset of its tail for a dynamic one.
pub open spec fn head_word(args: Seq<AbiArg>, i: int) -> Seq<u8> {
    match args[i] {
        AbiArg::Uint(v) => spec_word(v as nat),
        AbiArg::Word(w) => w,
        AbiArg::Bytes(_) => spec_word(32 * args.len() + tails_size(args, i)),
    }
}

/// The tail of one argument: length word, data, zero padding to a word
/// boundary.
pub open spec fn tail_bytes(a: AbiArg) -> Seq<u8> {
    match a {
        AbiArg::Bytes(b) => spec_word(b.len()) + b + zero_bytes((padded_len(b.len())
            - b.len()) as nat),
        _ => Seq::<u8>::empty(),
    }
}

/// The first `i` head words, concatenated.
pub open spec fn heads(args: Seq<AbiArg>, i: int) -> Seq<u8>
    decreases i,
{
    if i <= 0 {
        Seq::<u8>::empty()
    } else {
        heads(args, i - 1) + head_word(args, i - 1)
    }
}

/// The first `i` tails, concatenated.
pub open spec fn tails(args: Seq<AbiArg>, i: int) -> Seq<u8>
    decreases i,
{
    if i <= 0 {
        Seq::<u8>::empty()
    } else {
        tails(args, i - 1) + tail_bytes(args[i - 1])
    }
}

/// The ABI encoding of an argument tuple: all head words, then all tails.
pub open spec fn spec_encode_args(args: Seq<AbiArg>) -> Seq<u8> {
    heads(args, args.len() as int) + tails(args, args.len() as int)
}

/// A full encoded call: the 4-byte selector followed by the encoded
/// argument tuple.
pub open spec fn spec_encode_call(selector: Seq<u8>, args: Seq<AbiArg>) -> Seq<u8> {
    selector + spec_encode_args(args)
}

pub proof fn lemma_tail_bytes_len(a: AbiArg)
    ensures
        tail_bytes(a).len() == tail_size(a),
{
}

pub proof fn lemma_heads_len(args: Seq<AbiArg>, i: int)
    requires
        0 <= i <= args.len(),
        args_wf(args),
    ensures
        heads(args, i).len() == 32 * i,
    decreases i,
{
    if i > 0 {
        lemma_heads_len(args, i - 1);
        assert(arg_wf(args[i - 1]));
    }
}

pub proof fn lemma_tails_len(args: Seq<AbiArg>, i: int)
    requires
        0 <= i <= args.len(),
    ensures
        tails(args, i).len() == tails_size(args, i),
    decreases i,
{
    if i > 0 {
        lemma_tails_len(args, i - 1);
        lemma_tail_bytes_len(args[i - 1]);
    }
}

pub proof fn lemma_tails_size_monotonic(args: Seq<AbiArg>, i: int, j: int)
    requires
        i <= j,
    ensures
        tails_size(args, i) <= tails_size(args, j),
    decreases j - i,
{
    if i < j {
        lemma_tails_size_monotonic(args, i, j - 1);
    }
}

/// Head word `j` stands at bytes `32 j .. 32 j + 32` of the head area.
pub proof fn lemma_heads_index(args: Seq<AbiArg>, i: int, j: int)
    requires
        0 <= j < i <= args.len(),
        args_wf(args),
    ensures
        heads(args, i).subrange(32 * j, 32 * j + 32) =~= head_word(args, j),
    decreases i,
{
    lemma_heads_len(args, i);
    lemma_heads_len(args, i - 1);
    assert(arg_wf(args[i - 1]));
    if j == i - 1 {
        assert(heads(args, i) == heads(args, i - 1) + head_word(args, i - 1));
    } else {
        lemma_heads_index(args, i - 1, j);
        assert(heads(args, i).subrange(32 * j, 32 * j + 32) =~= heads(args, i - 1).subrange(
            32 * j,
            32 * j + 32,
        ));
    }
}

/// Tail `j` stands at offset `tails_size(args, j)` of the tail area.
pub proof fn lemma_tails_chunk(args: Seq<AbiArg>, i: int, j: int)
    requires
        0 <= j < i <= args.len(),
    ensures
        tails(args, i).subrange(
            tails_size(args, j) as int,
            tails_size(args, j) as int + tail_size(args[j]) as int,
        ) =~= tail_bytes(args[j]),
    decreases i,
{
    lemma_tails_len(args, i);
    lemma_tails_len(args, i - 1);
    lemma_tail_bytes_len(args[i - 1]);
    lemma_tail_bytes_len(args[j]);
    if j == i - 1 {
        assert(tails(args, i) == tails(args, i - 1) + tail_bytes(args[i - 1]));
    } else {
        lemma_tails_chunk(args, i - 1, j);
        lemma_tails_size_monotonic(args, j + 1, i - 1);
        assert(tails(args, i).subrange(
            tails_size(args, j) as int,
            tails_size(args, j) as int + tail_size(args[j]) as int,
        ) =~= tails(args, i - 1).subrange(
            tails_size(args, j) as int,
            tails_size(args, j) as int + tail_size(args[j]) as int,
        ));
    }
}

/// Appends the 32-byte word encoding of `v`.
pub fn push_word(out: &mut Vec<u8>, v: u128)
    requires
        old(out)@.len() + 32 <= usize::MAX,
    ensures
        final(out)@ == old(out)@ + spec_word(v as nat),
{
    push_zero_bytes(out, 16);
    proof {
        lemma_pow256_u128_bound();
    }
    push_be_bytes(out, v, 16);
    proof {
        lemma_pow256_u128_bound();
        lemma_be_bytes_leading_zeros(v as nat, 16, 32);
        assert(final(out)@ =~= old(out)@ + spec_word(v as nat));
    }
}

/// Appends every byte of `b`.
pub fn push_bytes(out: &mut Vec<u8>, b: &Vec<u8>)
    requires
        old(out)@.len() + b@.len() <= usize::MAX,
    ensures
        final(out)@ == old(out)@ + b@,
{
    let mut k: usize = 0;
    let n = b.len();
    while k < n
        invariant
            0 <= k <= n,
            n == b@.len(),
            out@ =~= old(out)@ + b@.take(k as int),
            old(out)@.len() + b@.len() <= usize::MAX,
        decreases n - k,
    {
        proof {
            assert(old(out)@ + b@.take(k as int + 1) =~= (old(out)@ + b@.take(k as int)).push(
                b@[k as int],
            ));
        }
        let x = b[k];
        out.push(x);
        k = k + 1;
    }
    proof {
        assert(b@.take(n as int) =~= b@);
    }
}

/// `len` rounded up to a word boundary.
pub fn padded_len_exec(len: usize) -> (r: usize)
    requires
        padded_len(len as nat) <= usize::MAX,
    ensures
        r == padded_len(len as nat),
        len <= r,
{
    let rem = len % 32;
    if rem == 0 {
        len
    } else {
        len + (32 - rem)
    }
}

/// Encodes a call to the precompile entry point `op` with the given
/// argument tuple: the registered 4-byte selector followed by the
/// Solidity-ABI encoding of the arguments. The encoding is deterministic
/// and side-effect-free: it is a function of `op` and the argument values
/// alone.
pub fn encode_call(op: Operation, args: &Vec<AbiValue>) -> (r: Vec<u8>)
    requires
        args_wf(arg_views(args@)),
        4 + 32 * args@.len() + tails_size(arg_views(args@), args@.len() as int) <= usize::MAX,
    ensures
        r@ == spec_encode_call(spec_selector(op), arg_views(args@)),
{
    let ghost gargs = arg_views(args@);
    let n = args.len();
    proof {
        assert(gargs.len() == args@.len());
    }
    let mut out: Vec<u8> = selector_bytes(op);
    let mut acc: usize = 0;
    let mut i: usize = 0;
    while i < n
        invariant
            0 <= i <= n,
            n == args@.len(),
            gargs == arg_views(args@),
            gargs.len() == n,
            args_wf(gargs),
            acc == tails_size(gargs, i as int),
            out@ =~= spec_selector(op) + heads(gargs, i as int),
            4 + 32 * (n as nat) + tails_size(gargs, n as int) <= usize::MAX,
        decreases n - i,
    {
        proof {
            lemma_heads_len(gargs, i as int);
            lemma_tails_size_monotonic(gargs, i as int, n as int);
            lemma_tails_size_monotonic(gargs, i as int + 1, n as int);
            assert(gargs[i as int] == args@[i as int]@);
        }
        let a = &args[i];
        match a {
            AbiValue::Uint(v) => {
                push_word(&mut out, *v);
                proof {
                    assert(out@ =~= spec_selector(op) + heads(gargs, i as int + 1));
                }
            },
            AbiValue::Word(w) => {
                push_bytes(&mut out, w);
                proof {
                    assert(out@ =~= spec_selector(op) + heads(gargs, i as int + 1));
                }
            },
            AbiValue::Bytes(b) => {
                let off = 32 * n + acc;
                push_word(&mut out, off as u128);
                let pl = padded_len_exec(b.len());
                acc = acc + 32 + pl;
                proof {
                    assert(head_word(gargs, i as int) == spec_word((32 * gargs.len() + tails_size(
                        gargs,
                        i as int,
                    )) as nat));
                    assert(off as nat == 32 * gargs.len() + tails_size(gargs, i as int));
                    assert(out@ =~= spec_selector(op) + heads(gargs, i as int + 1));
                    assert(acc == tails_size(gargs, i as int + 1));
                }
            },
        }
        i = i + 1;
    }
    let mut i: usize = 0;
    while i < n
        invariant
            0 <= i <= n,
            n == args@.len(),
            gargs == arg_views(args@),
            gargs.len() == n,
            args_wf(gargs),
            out@ =~= spec_selector(op) + heads(gargs, n as int) + tails(gargs, i as int),
            4 + 32 * (n as nat) + tails_size(gargs, n as int) <= usize::MAX,
        decreases n - i,
    {
        proof {
            lemma_heads_len(gargs, n as int);
            lemma_tails_len(gargs, i as int);
            lemma_tails_size_monotonic(gargs, i as int, n as int);
            lemma_tails_size_monotonic(gargs, i as int + 1, n as int);
            assert(gargs[i as int] == args@[i as int]@);
        }
        let a = &args[i];
        match a {
            AbiValue::Bytes(b) => {
                push_word(&mut out, b.len() as u128);
                push_bytes(&mut out, b);
                let pl = padded_len_exec(b.len());
                push_zero_bytes(&mut out, pl - b.len());
                proof {
                    assert(tail_bytes(gargs[i as int]) == spec_word(b@.len()) + b@ + zero_bytes(
                        (padded_len(b@.len()) - b@.len()) as nat,
                    ));
                    assert(out@ =~= spec_selector(op) + heads(gargs, n as int) + tails(
                        gargs,
                        i as int + 1,
                    ));
                }
            },
            _ => {
                proof {
                    assert(tail_bytes(gargs[i as int]) == Seq::<u8>::empty());
                    assert(out@ =~= spec_selector(op) + heads(gargs, n as int) + tails(
                        gargs,
                        i as int + 1,
                    ));
                }
            },
        }
        i = i + 1;
    }
    proof {
        assert(out@ =~= spec_encode_call(spec_selector(op), gargs));
    }
    out
}

/// Encoding is deterministic: the encoded bytes are a function of the
/// selector and the argument tuple alone, so encoding the same tuple twice
/// yields identical bytes.
pub proof fn lemma_encode_deterministic(
    selector: Seq<u8>,
    args1: Seq<AbiArg>,
    args2: Seq<AbiArg>,
)
    requires
        args1 == args2,
    ensures
        spec_encode_call(selector, args1) == spec_encode_call(selector, args2),
{
}

/// The first 4 bytes of every encoded call equal the selector registered
/// for its operation, for all supported operations and argument tuples.
pub proof fn lemma_selector_prefix(op: Operation, args: Seq<AbiArg>)
    ensures
        spec_encode_call(spec_selector(op), args).subrange(0, 4) =~= spec_selector(op),
{
    crate::selector::lemma_selector_len(op);
}

} // verus!
