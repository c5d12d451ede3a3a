//! The EIP-1559 transaction envelope of the unsigned relay path: an
//! encoded precompile call wrapped with fixed gas-policy constants, the
//! chain id fetched live from the chain, and zeroed signature fields. The
//! runtime authenticates the payload through the signature embedded inside
//! the ABI-encoded arguments, not through the envelope's own signature.

use vstd::prelude::*;

use crate::abi::{
    arg_views, args_wf, encode_call, spec_encode_call, tails_size, AbiArg, AbiValue,
};
use crate::selector::{spec_selector, Operation};
use crate::words::{
    be_bytes, lemma_be_bytes_leading_zeros, lemma_pow256_u64_bound, push_be_bytes,
    push_zero_bytes, zero_bytes,
};

verus! {

/// The low-64-bit value of the channel precompile contract address, the
/// target of result-report relays.
pub const CHANNEL_PRECOMPILE_ADDRESS: u64 = 1104;

/// The low-64-bit value of the mining precompile contract address, the
/// target of service join/exit relays.
pub const MINING_PRECOMPILE_ADDRESS: u64 = 1101;

/// Fixed gas-policy constants: this client does not estimate gas, it
/// assumes generous static limits sufficient for the known operation set.
pub const RELAY_NONCE: u128 = 0;

pub const RELAY_MAX_PRIORITY_FEE_PER_GAS: u128 = 1500000000;

pub const RELAY_MAX_FEE_PER_GAS: u128 = 4500000000;

pub const RELAY_GAS_LIMIT: u128 = 50000000;

pub const RELAY_VALUE: u128 = 0;

/// The two operation families, each addressed at its own fixed precompile
/// contract: result reporting, and service join/exit.
#[derive(Clone, Copy, PartialEq, Eq, Structural, Debug)]
pub enum OperationFamily {
    ResultReport,
    ServiceChange,
}

/// The low-64-bit value of the precompile address a family targets.
pub open spec fn family_address_value(f: OperationFamily) -> nat {
    match f {
        OperationFamily::ResultReport => 1104,
        OperationFamily::ServiceChange => 1101,
    }
}

/// The full 20-byte precompile address: 12 zero bytes, then the value in
/// big-endian order.
pub open spec fn spec_family_address(f: OperationFamily) -> Seq<u8> {
    be_bytes(family_address_value(f), 20)
}

/// Returns the 20-byte precompile contract address a family targets.
pub fn family_address(f: OperationFamily) -> (r: Vec<u8>)
    ensures
        r@ == spec_family_address(f),
        r@.len() == 20,
{
    let mut out: Vec<u8> = Vec::new();
    push_zero_bytes(&mut out, 12);
    let v: u64 = match f {
        OperationFamily::ResultReport => CHANNEL_PRECOMPILE_ADDRESS,
        OperationFamily::ServiceChange => MINING_PRECOMPILE_ADDRESS,
    };
    proof {
        lemma_pow256_u64_bound();
    }
    push_be_bytes(&mut out, v as u128, 8);
    proof {
        lemma_be_bytes_leading_zeros(family_address_value(f), 8, 20);
        assert(out@ =~= spec_family_address(f));
    }
    out
}

/// One entry of an EIP-1559 access list. Relay transactions always carry
/// an empty access list.
pub struct AccessListEntry {
    pub address: Vec<u8>,
    pub storage_keys: Vec<Vec<u8>>,
}

/// An EIP-1559 transaction wrapping one encoded precompile call for the
/// unsigned relay path. Constructed fresh per call, never persisted.
pub struct RelayTransaction {
    pub chain_id: u64,
    pub nonce: u128,
    pub max_priority_fee_per_gas: u128,
    pub max_fee_per_gas: u128,
    pub gas_limit: u128,
    /// The 20-byte target precompile contract address.
    pub action: Vec<u8>,
    pub value: u128,
    /// The encoded call: selector plus ABI-encoded argument tuple.
    pub input: Vec<u8>,
    pub access_list: Vec<AccessListEntry>,
    pub odd_y_parity: bool,
    pub r: Vec<u8>,
    pub s: Vec<u8>,
}

impl RelayTransaction {
    /// The signature fields hold the zero value: these transactions are
    /// submitted through the unsigned relay path, and the runtime
    /// authenticates the payload embedded in the call data instead.
    pub open spec fn signature_zeroed(self) -> bool {
        &&& self.odd_y_parity == false
        &&& self.r@ == zero_bytes(32)
        &&& self.s@ == zero_bytes(32)
    }

    /// A well-formed relay transaction: a 20-byte target address, an empty
    /// access list, and zeroed signature fields.
    pub open spec fn wf(self) -> bool {
        &&& self.action@.len() == 20
        &&& self.access_list@.len() == 0
        &&& self.signature_zeroed()
    }
}

/// Why an envelope could not be built.
#[derive(Clone, Copy, PartialEq, Eq, Structural, Debug)]
pub enum RelayError {
    /// Chain-id retrieval failed or returned empty; no default chain id is
    /// substituted, since the wrong chain id would make the transaction
    /// replayable on the wrong network.
    ChainIdUnavailable,
}

impl RelayError {
    /// The error rendered as text.
    pub fn message(&self) -> (r: String)
        ensures
            r@ == "get evm chain failed"@,
    {
        String::from_str("get evm chain failed")
    }
}

/// Wraps an encoded call into a complete EIP-1559 relay transaction
/// addressed at the family's fixed precompile contract. The chain id is
/// the value just fetched from the chain; when none could be fetched,
/// construction fails and nothing is built.
pub fn build_envelope(family: OperationFamily, chain_id: Option<u64>, input: Vec<u8>) -> (r:
    Result<RelayTransaction, RelayError>)
    ensures
        chain_id is Some <==> r is Ok,
        (match r {
            Ok(t) => {
                &&& t.wf()
                &&& chain_id == Some(t.chain_id)
                &&& t.nonce == RELAY_NONCE
                &&& t.max_priority_fee_per_gas == RELAY_MAX_PRIORITY_FEE_PER_GAS
                &&& t.max_fee_per_gas == RELAY_MAX_FEE_PER_GAS
                &&& t.gas_limit == RELAY_GAS_LIMIT
                &&& t.value == RELAY_VALUE
                &&& t.action@ == spec_family_address(family)
                &&& t.input@ == input@
            },
            Err(e) => e == RelayError::ChainIdUnavailable,
        }),
{
    match chain_id {
        None => Err(RelayError::ChainIdUnavailable),
        Some(cid) => {
            let action = family_address(family);
            let mut r_word: Vec<u8> = Vec::new();
            push_zero_bytes(&mut r_word, 32);
            let mut s_word: Vec<u8> = Vec::new();
            push_zero_bytes(&mut s_word, 32);
            proof {
                assert(r_word@ =~= zero_bytes(32));
                assert(s_word@ =~= zero_bytes(32));
            }
            Ok(
                RelayTransaction {
                    chain_id: cid,
                    nonce: RELAY_NONCE,
                    max_priority_fee_per_gas: RELAY_MAX_PRIORITY_FEE_PER_GAS,
                    max_fee_per_gas: RELAY_MAX_FEE_PER_GAS,
                    gas_limit: RELAY_GAS_LIMIT,
                    action,
                    value: RELAY_VALUE,
                    input,
                    access_list: Vec::new(),
                    odd_y_parity: false,
                    r: r_word,
                    s: s_word,
                },
            )
        },
    }
}

/// The argument tuple of a result-report call: sender public key,
/// sender signature, channel id, fork id, the signed hash, and the
/// committee threshold signature.
pub open spec fn report_result_args(
    pk: Seq<u8>,
    sig: Seq<u8>,
    cid: u32,
    fork_id: u8,
    hash: Seq<u8>,
    signature: Seq<u8>,
) -> Seq<AbiArg> {
    seq![
        AbiArg::Bytes(pk),
        AbiArg::Bytes(sig),
        AbiArg::Uint(cid as u128),
        AbiArg::Uint(fork_id as u128),
        AbiArg::Word(hash),
        AbiArg::Bytes(signature),
    ]
}

/// The bytes of the encoded result-report call.
pub open spec fn spec_report_result_call(
    pk: Seq<u8>,
    sig: Seq<u8>,
    cid: u32,
    fork_id: u8,
    hash: Seq<u8>,
    signature: Seq<u8>,
) -> Seq<u8> {
    spec_encode_call(
        spec_selector(Operation::ReportResult),
        report_result_args(pk, sig, cid, fork_id, hash, signature),
    )
}

/// Encodes a result-report precompile call: the registered selector
/// followed by the ABI-encoded (bytes, bytes, uint256, uint8, bytes32,
/// bytes) tuple, in that order.
pub fn encode_report_result_call(
    pk: Vec<u8>,
    sig: Vec<u8>,
    cid: u32,
    fork_id: u8,
    hash: Vec<u8>,
    signature: Vec<u8>,
) -> (r: Vec<u8>)
    requires
        hash@.len() == 32,
        196 + tails_size(
            report_result_args(pk@, sig@, cid, fork_id, hash@, signature@),
            6,
        ) <= usize::MAX,
    ensures
        r@ == spec_report_result_call(pk@, sig@, cid, fork_id, hash@, signature@),
{
    let ghost gargs = report_result_args(pk@, sig@, cid, fork_id, hash@, signature@);
    let mut args: Vec<AbiValue> = Vec::new();
    args.push(AbiValue::Bytes(pk));
    args.push(AbiValue::Bytes(sig));
    args.push(AbiValue::Uint(cid as u128));
    args.push(AbiValue::Uint(fork_id as u128));
    args.push(AbiValue::Word(hash));
    args.push(AbiValue::Bytes(signature));
    proof {
        assert(arg_views(args@) =~= gargs);
        assert(args_wf(gargs));
    }
    encode_call(Operation::ReportResult, &args)
}

/// The argument tuple of a service join/exit call: device identity,
/// purpose, message, and signature.
pub open spec fn join_or_exit_args(
    id: Seq<u8>,
    purpose: u8,
    msg: Seq<u8>,
    signature: Seq<u8>,
) -> Seq<AbiArg> {
    seq![
        AbiArg::Bytes(id),
        AbiArg::Uint(purpose as u128),
        AbiArg::Bytes(msg),
        AbiArg::Bytes(signature),
    ]
}

/// The bytes of the encoded service join/exit call.
pub open spec fn spec_join_or_exit_call(
    id: Seq<u8>,
    purpose: u8,
    msg: Seq<u8>,
    signature: Seq<u8>,
) -> Seq<u8> {
    spec_encode_call(
        spec_selector(Operation::JoinOrExitServiceUnsigned),
        join_or_exit_args(id, purpose, msg, signature),
    )
}

/// Encodes a service join/exit precompile call: the registered selector
/// followed by the ABI-encoded (bytes, uint8, bytes, bytes) tuple.
pub fn encode_join_or_exit_call(id: Vec<u8>, purpose: u8, msg: Vec<u8>, signature: Vec<u8>) -> (r:
    Vec<u8>)
    requires
        132 + tails_size(join_or_exit_args(id@, purpose, msg@, signature@), 4) <= usize::MAX,
    ensures
        r@ == spec_join_or_exit_call(id@, purpose, msg@, signature@),
{
    let ghost gargs = join_or_exit_args(id@, purpose, msg@, signature@);
    let mut args: Vec<AbiValue> = Vec::new();
    args.push(AbiValue::Bytes(id));
    args.push(AbiValue::Uint(purpose as u128));
    args.push(AbiValue::Bytes(msg));
    args.push(AbiValue::Bytes(signature));
    proof {
        assert(arg_views(args@) =~= gargs);
        assert(args_wf(gargs));
    }
    encode_call(Operation::JoinOrExitServiceUnsigned, &args)
}

/// Builds the complete result-report relay transaction: the encoded
/// submitTxSignResult call wrapped in an envelope addressed at the channel
/// precompile. `chain_id` is the value fetched live from the chain;
/// construction fails, and nothing is built, when it is absent.
pub fn build_report_result_transaction(
    chain_id: Option<u64>,
    pk: Vec<u8>,
    sig: Vec<u8>,
    cid: u32,
    fork_id: u8,
    hash: Vec<u8>,
    signature: Vec<u8>,
) -> (r: Result<RelayTransaction, RelayError>)
    requires
        hash@.len() == 32,
        196 + tails_size(
            report_result_args(pk@, sig@, cid, fork_id, hash@, signature@),
            6,
        ) <= usize::MAX,
    ensures
        chain_id is Some <==> r is Ok,
        (match r {
            Ok(t) => {
                &&& t.wf()
                &&& chain_id == Some(t.chain_id)
                &&& t.nonce == RELAY_NONCE
                &&& t.max_priority_fee_per_gas == RELAY_MAX_PRIORITY_FEE_PER_GAS
                &&& t.max_fee_per_gas == RELAY_MAX_FEE_PER_GAS
                &&& t.gas_limit == RELAY_GAS_LIMIT
                &&& t.value == RELAY_VALUE
                &&& t.action@ == spec_family_address(OperationFamily::ResultReport)
                &&& t.input@ == spec_report_result_call(pk@, sig@, cid, fork_id, hash@, signature@)
            },
            Err(e) => e == RelayError::ChainIdUnavailable,
        }),
{
    let input = encode_report_result_call(pk, sig, cid, fork_id, hash, signature);
    build_envelope(OperationFamily::ResultReport, chain_id, input)
}

/// Builds the complete service join/exit relay transaction: the encoded
/// joinOrExitServiceUnsigned call wrapped in an envelope addressed at the
/// mining precompile. `chain_id` is the value fetched live from the chain;
/// construction fails, and nothing is built, when it is absent.
pub fn build_join_or_exit_transaction(
    chain_id: Option<u64>,
    id: Vec<u8>,
    purpose: u8,
    msg: Vec<u8>,
    signature: Vec<u8>,
) -> (r: Result<RelayTransaction, RelayError>)
    requires
        132 + tails_size(join_or_exit_args(id@, purpose, msg@, signature@), 4) <= usize::MAX,
    ensures
        chain_id is Some <==> r is Ok,
        (match r {
            Ok(t) => {
                &&& t.wf()
                &&& chain_id == Some(t.chain_id)
                &&& t.nonce == RELAY_NONCE
                &&& t.max_priority_fee_per_gas == RELAY_MAX_PRIORITY_FEE_PER_GAS
                &&& t.max_fee_per_gas == RELAY_MAX_FEE_PER_GAS
                &&& t.gas_limit == RELAY_GAS_LIMIT
                &&& t.value == RELAY_VALUE
                &&& t.action@ == spec_family_address(OperationFamily::ServiceChange)
                &&& t.input@ == spec_join_or_exit_call(id@, purpose, msg@, signature@)
            },
            Err(e) => e == RelayError::ChainIdUnavailable,
        }),
{
    let input = encode_join_or_exit_call(id, purpose, msg, signature);
    build_envelope(OperationFamily::ServiceChange, chain_id, input)
}

/// Every well-formed relay transaction has zeroed signature fields: the
/// envelope is unsigned for every operation family, and the payload is
/// authenticated inside the ABI-encoded arguments instead.
pub proof fn lemma_envelope_unsigned(t: RelayTransaction)
    requires
        t.wf(),
    ensures
        t.signature_zeroed(),
{
}

} // verus!
