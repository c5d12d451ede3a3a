//! The selector table: each precompile entry point this client can target
//! is identified by a fixed 4-byte selector, precomputed off-line from a
//! hash of the canonical function-signature string and never recomputed at
//! run time.

use vstd::prelude::*;

verus! {

/// keccak_256("submitTxSignResult(bytes[],bytes[],uint256,uint256,bytes32,bytes[])".as_bytes())[..4]
pub const REPORT_RESULT_SELECTOR: [u8; 4] = [118, 72, 134, 178];

/// keccak_256("importNewTx(uint256,uint256,bytes[],uint256,bytes[],bytes[],bytes[],uint256)".as_bytes())[..4]
pub const SUBMIT_TRANSACTION_SELECTOR: [u8; 4] = [58, 164, 61, 2];

/// keccak_256("joinOrExitServiceUnsigned(bytes[],uint256,bytes[],bytes[])".as_bytes())[..4]
pub const JOIN_OR_EXIT_SERVICE_UNSIGNED_SELECTOR: [u8; 4] = [99, 254, 70, 76];

/// The operations this client supports; the table of selectors is closed
/// and total over them.
#[derive(Clone, Copy, PartialEq, Eq, Structural, Debug)]
pub enum Operation {
    ReportResult,
    SubmitTransaction,
    JoinOrExitServiceUnsigned,
}

/// The 4-byte selector registered for `op`.
pub open spec fn spec_selector(op: Operation) -> Seq<u8> {
    match op {
        Operation::ReportResult => seq![118u8, 72u8, 134u8, 178u8],
        Operation::SubmitTransaction => seq![58u8, 164u8, 61u8, 2u8],
        Operation::JoinOrExitServiceUnsigned => seq![99u8, 254u8, 70u8, 76u8],
    }
}

pub proof fn lemma_selector_len(op: Operation)
    ensures
        spec_selector(op).len() == 4,
{
}

/// Returns the selector registered for `op`.
pub fn selector_bytes(op: Operation) -> (r: Vec<u8>)
    ensures
        r@ == spec_selector(op),
{
    let mut r: Vec<u8> = Vec::new();
    match op {
        Operation::ReportResult => {
            r.push(118);
            r.push(72);
            r.push(134);
            r.push(178);
        },
        Operation::SubmitTransaction => {
            r.push(58);
            r.push(164);
            r.push(61);
            r.push(2);
        },
        Operation::JoinOrExitServiceUnsigned => {
            r.push(99);
            r.push(254);
            r.push(70);
            r.push(76);
        },
    }
    proof {
        assert(r@ =~= spec_selector(op));
    }
    r
}

} // verus!
