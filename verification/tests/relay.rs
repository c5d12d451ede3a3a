use pallets_api::abi::{encode_call, AbiValue};
use pallets_api::decode::decode_bytes_arg;
use pallets_api::envelope::{
    build_join_or_exit_transaction, build_report_result_transaction, family_address,
    OperationFamily, RelayError,
};
use pallets_api::selector::{
    selector_bytes, Operation, JOIN_OR_EXIT_SERVICE_UNSIGNED_SELECTOR, REPORT_RESULT_SELECTOR,
    SUBMIT_TRANSACTION_SELECTOR,
};

fn word_of(v: u128) -> Vec<u8> {
    let mut w = vec![0u8; 16];
    w.extend_from_slice(&v.to_be_bytes());
    w
}

fn bytes_tail(data: &[u8]) -> Vec<u8> {
    let mut t = word_of(data.len() as u128);
    t.extend_from_slice(data);
    let pad = (32 - data.len() % 32) % 32;
    t.extend_from_slice(&vec![0u8; pad]);
    t
}

fn sample(n: usize, seed: u8) -> Vec<u8> {
    (0..n).map(|i| (i as u8).wrapping_mul(31).wrapping_add(seed)).collect()
}

#[test]
fn encode_deterministic() {
    let args = || {
        vec![
            AbiValue::Bytes(sample(33, 1)),
            AbiValue::Uint(7),
            AbiValue::Word(sample(32, 9)),
        ]
    };
    let a = encode_call(Operation::ReportResult, &args());
    let b = encode_call(Operation::ReportResult, &args());
    assert_eq!(a, b);
}

#[test]
fn selector_prefix_all_operations() {
    let ops = [
        Operation::ReportResult,
        Operation::SubmitTransaction,
        Operation::JoinOrExitServiceUnsigned,
    ];
    let consts = [
        REPORT_RESULT_SELECTOR,
        SUBMIT_TRANSACTION_SELECTOR,
        JOIN_OR_EXIT_SERVICE_UNSIGNED_SELECTOR,
    ];
    for (op, sel) in ops.iter().zip(consts.iter()) {
        let encoded = encode_call(*op, &vec![AbiValue::Uint(5)]);
        assert_eq!(&encoded[..4], &sel[..]);
        assert_eq!(selector_bytes(*op), sel.to_vec());
    }
}

#[test]
fn selector_constants() {
    assert_eq!(REPORT_RESULT_SELECTOR, [0x76, 0x48, 0x86, 0xb2]);
    assert_eq!(SUBMIT_TRANSACTION_SELECTOR, [0x3a, 0xa4, 0x3d, 0x02]);
    assert_eq!(JOIN_OR_EXIT_SERVICE_UNSIGNED_SELECTOR, [0x63, 0xfe, 0x46, 0x4c]);
}

fn round_trip(len: usize) {
    let data = sample(len, 3);
    let args = vec![
        AbiValue::Uint(11),
        AbiValue::Bytes(data.clone()),
        AbiValue::Bytes(sample(5, 8)),
    ];
    let encoded = encode_call(Operation::SubmitTransaction, &args);
    let decoded = decode_bytes_arg(&encoded, 1, 3).expect("dynamic argument must decode");
    assert_eq!(decoded, data);
}

#[test]
fn bytes_round_trip_len_0() {
    round_trip(0);
}

#[test]
fn bytes_round_trip_len_1() {
    round_trip(1);
}

#[test]
fn bytes_round_trip_len_31() {
    round_trip(31);
}

#[test]
fn bytes_round_trip_len_32() {
    round_trip(32);
}

#[test]
fn bytes_round_trip_len_1000() {
    round_trip(1000);
}

#[test]
fn decode_rejects_out_of_range_argument() {
    let encoded = encode_call(Operation::ReportResult, &vec![AbiValue::Bytes(sample(4, 2))]);
    assert!(decode_bytes_arg(&encoded, 1, 1).is_none());
    assert!(decode_bytes_arg(&encoded, 0, 0).is_none());
}

#[test]
fn decode_rejects_truncated_buffer() {
    let encoded = encode_call(Operation::ReportResult, &vec![AbiValue::Bytes(sample(40, 2))]);
    let truncated: Vec<u8> = encoded[..encoded.len() - 40].to_vec();
    assert!(decode_bytes_arg(&truncated, 0, 1).is_none());
}

#[test]
fn envelope_rejects_missing_chain_id() {
    let res = build_report_result_transaction(
        None,
        sample(33, 1),
        sample(65, 2),
        7,
        2,
        sample(32, 9),
        sample(65, 4),
    );
    match res {
        Err(e) => {
            assert_eq!(e, RelayError::ChainIdUnavailable);
            assert_eq!(e.message(), "get evm chain failed");
        }
        Ok(_) => panic!("envelope must not be built without a chain id"),
    }
    let res = build_join_or_exit_transaction(None, sample(32, 1), 1, sample(20, 2), sample(65, 3));
    assert!(res.is_err());
}

#[test]
fn envelope_signature_zeroed_for_every_family() {
    let report = build_report_result_transaction(
        Some(5),
        sample(33, 1),
        sample(65, 2),
        7,
        2,
        sample(32, 9),
        sample(65, 4),
    )
    .expect("chain id present");
    let join = build_join_or_exit_transaction(Some(5), sample(32, 1), 0, sample(20, 2), sample(65, 3))
        .expect("chain id present");
    for tx in [&report, &join] {
        assert!(!tx.odd_y_parity);
        assert_eq!(tx.r, vec![0u8; 32]);
        assert_eq!(tx.s, vec![0u8; 32]);
        assert!(tx.access_list.is_empty());
    }
}

#[test]
fn envelope_gas_policy_constants() {
    let tx = build_join_or_exit_transaction(Some(9), sample(32, 1), 1, sample(4, 2), sample(65, 3))
        .expect("chain id present");
    assert_eq!(tx.chain_id, 9);
    assert_eq!(tx.nonce, 0);
    assert_eq!(tx.max_priority_fee_per_gas, 1_500_000_000);
    assert_eq!(tx.max_fee_per_gas, 4_500_000_000);
    assert_eq!(tx.gas_limit, 50_000_000);
    assert_eq!(tx.value, 0);
}

#[test]
fn family_addresses() {
    let mut channel = vec![0u8; 18];
    channel.extend_from_slice(&[0x04, 0x50]);
    assert_eq!(family_address(OperationFamily::ResultReport), channel);
    let mut mining = vec![0u8; 18];
    mining.extend_from_slice(&[0x04, 0x4d]);
    assert_eq!(family_address(OperationFamily::ServiceChange), mining);
}

#[test]
fn report_result_end_to_end() {
    let pk = sample(33, 11);
    let sig = sample(65, 22);
    let hash = sample(32, 33);
    let signature = sample(65, 44);
    let tx = build_report_result_transaction(
        Some(1337),
        pk.clone(),
        sig.clone(),
        7,
        2,
        hash.clone(),
        signature.clone(),
    )
    .expect("chain id present");

    assert_eq!(tx.chain_id, 1337);
    assert_eq!(&tx.input[..4], &[0x76, 0x48, 0x86, 0xb2]);

    // (bytes, bytes, uint256, uint8, bytes32, bytes): six head words, then
    // the three dynamic tails in argument order.
    let mut expected = vec![0x76, 0x48, 0x86, 0xb2];
    expected.extend_from_slice(&word_of(192)); // pk tail offset
    expected.extend_from_slice(&word_of(288)); // sig tail offset
    expected.extend_from_slice(&word_of(7)); // cid
    expected.extend_from_slice(&word_of(2)); // fork id
    expected.extend_from_slice(&hash);
    expected.extend_from_slice(&word_of(416)); // signature tail offset
    expected.extend_from_slice(&bytes_tail(&pk));
    expected.extend_from_slice(&bytes_tail(&sig));
    expected.extend_from_slice(&bytes_tail(&signature));
    assert_eq!(tx.input, expected);

    let mut report_address = vec![0u8; 18];
    report_address.extend_from_slice(&[0x04, 0x50]);
    assert_eq!(tx.action, report_address);
}

#[test]
fn join_or_exit_encoding() {
    let id = sample(3, 5);
    let msg = sample(33, 6);
    let signature = sample(64, 7);
    let tx = build_join_or_exit_transaction(Some(1), id.clone(), 1, msg.clone(), signature.clone())
        .expect("chain id present");
    let mut expected = vec![0x63, 0xfe, 0x46, 0x4c];
    expected.extend_from_slice(&word_of(128)); // id tail offset
    expected.extend_from_slice(&word_of(1)); // purpose
    expected.extend_from_slice(&word_of(192)); // msg tail offset
    expected.extend_from_slice(&word_of(288)); // signature tail offset
    expected.extend_from_slice(&bytes_tail(&id));
    expected.extend_from_slice(&bytes_tail(&msg));
    expected.extend_from_slice(&bytes_tail(&signature));
    assert_eq!(tx.input, expected);
    let mut mining_address = vec![0u8; 18];
    mining_address.extend_from_slice(&[0x04, 0x4d]);
    assert_eq!(tx.action, mining_address);
}

#[test]
fn uint_word_layout() {
    let encoded = encode_call(Operation::ReportResult, &vec![AbiValue::Uint(0x0102)]);
    assert_eq!(encoded.len(), 36);
    let mut expected = vec![0u8; 30];
    expected.extend_from_slice(&[0x01, 0x02]);
    assert_eq!(&encoded[4..], &expected[..]);
}
