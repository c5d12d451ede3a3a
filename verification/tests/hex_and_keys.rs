use pallets_api::hexfmt::{parse_account20, to_hex_prefixed};
use pallets_api::devices::{bytes_equal, contains_working_device};
use pallets_api::keys::{
    cid_and_fork_from_storage_key, cid_from_storage_key, decode_cid_fork_keyed_entries,
    decode_cid_keyed_entries, decode_suffix_keyed_entries, storage_key_suffix,
};

#[test]
fn parse_account20_with_prefix() {
    let s = "0x00112233445566778899aAbBcCdDeEfF00112233";
    let v = parse_account20(s).expect("valid address");
    assert_eq!(
        v,
        vec![
            0x00, 0x11, 0x22, 0x33, 0x44, 0x55, 0x66, 0x77, 0x88, 0x99, 0xaa, 0xbb, 0xcc, 0xdd,
            0xee, 0xff, 0x00, 0x11, 0x22, 0x33
        ]
    );
}

#[test]
fn parse_account20_without_prefix() {
    let s = "ffeeddccbbaa99887766554433221100ffeeddcc";
    let v = parse_account20(s).expect("valid address");
    assert_eq!(v[0], 0xff);
    assert_eq!(v[19], 0xcc);
    assert_eq!(v.len(), 20);
}

#[test]
fn parse_account20_rejects_odd_length() {
    assert!(parse_account20("0x001").is_none());
}

#[test]
fn parse_account20_rejects_non_hex() {
    assert!(parse_account20("0x00112233445566778899aabbccddeeff0011223g").is_none());
}

#[test]
fn parse_account20_rejects_wrong_length() {
    assert!(parse_account20("0x0011223344").is_none());
    assert!(parse_account20("").is_none());
}

#[test]
fn hex_prefixed_rendering() {
    assert_eq!(to_hex_prefixed(&vec![0x00, 0xff, 0x10, 0xab]), "0x00ff10ab");
    assert_eq!(to_hex_prefixed(&Vec::new()), "0x");
}

#[test]
fn cid_from_52_byte_key() {
    let mut key = vec![9u8; 48];
    key.extend_from_slice(&[0x2a, 0x01, 0x00, 0x00]); // 298 little-endian
    assert_eq!(cid_from_storage_key(&key), Some(298));
}

#[test]
fn cid_key_of_wrong_length() {
    assert_eq!(cid_from_storage_key(&vec![0u8; 51]), None);
    assert_eq!(cid_from_storage_key(&vec![0u8; 53]), None);
}

#[test]
fn cid_and_fork_from_failure_key() {
    let mut key = vec![7u8; 48];
    key.extend_from_slice(&[0x05, 0x00, 0x00, 0x00]); // cid 5
    key.extend_from_slice(&vec![1u8; 16]); // second hasher prefix
    key.push(3); // fork byte at offset 68
    assert_eq!(key.len(), 69);
    assert_eq!(cid_and_fork_from_storage_key(&key), Some((5, 3)));
    assert_eq!(cid_and_fork_from_storage_key(&vec![0u8; 68]), None);
}

#[test]
fn identity_key_suffix() {
    let mut key = vec![4u8; 49];
    key.extend_from_slice(&[0xde, 0xad, 0xbe, 0xef]);
    assert_eq!(storage_key_suffix(&key, 49), Some(vec![0xde, 0xad, 0xbe, 0xef]));
    assert_eq!(storage_key_suffix(&key, 53), Some(Vec::new()));
    assert_eq!(storage_key_suffix(&key, 54), None);
}

#[test]
fn cid_keyed_entries_decode() {
    let mut k1 = vec![0u8; 48];
    k1.extend_from_slice(&[1, 0, 0, 0]);
    let mut k2 = vec![0u8; 48];
    k2.extend_from_slice(&[0, 1, 0, 0]);
    let entries = vec![(k1, "a"), (k2, "b")];
    assert_eq!(decode_cid_keyed_entries(entries), Some(vec![(1u32, "a"), (256u32, "b")]));
    let bad = vec![(vec![0u8; 52], "a"), (vec![0u8; 51], "b")];
    assert_eq!(decode_cid_keyed_entries(bad), None);
}

#[test]
fn suffix_keyed_entries_decode() {
    let mut k1 = vec![0u8; 49];
    k1.extend_from_slice(&[7, 8]);
    let entries = vec![(k1, 5u32)];
    assert_eq!(decode_suffix_keyed_entries(entries, 49), Some(vec![(vec![7u8, 8], 5u32)]));
    let bad = vec![(vec![0u8; 48], 5u32)];
    assert_eq!(decode_suffix_keyed_entries(bad, 49), None);
}

#[test]
fn cid_fork_keyed_entries_decode() {
    let mut k1 = vec![0u8; 48];
    k1.extend_from_slice(&[2, 0, 0, 0]);
    k1.extend_from_slice(&vec![0u8; 16]);
    k1.push(4);
    let entries = vec![(k1, 9u8)];
    assert_eq!(decode_cid_fork_keyed_entries(entries), Some(vec![(2u32, 4u8, 9u8)]));
    let bad = vec![(vec![0u8; 68], 9u8)];
    assert_eq!(decode_cid_fork_keyed_entries(bad), None);
}

#[test]
fn working_device_membership() {
    let devices = vec![
        ((1u16, vec![1u8, 2, 3]), false),
        ((2u16, vec![4u8, 5]), true),
    ];
    assert!(contains_working_device(&devices, 1, &vec![1, 2, 3]));
    // same identity but flagged as exiting
    assert!(!contains_working_device(&devices, 2, &vec![4, 5]));
    // unknown key
    assert!(!contains_working_device(&devices, 1, &vec![1, 2]));
    assert!(bytes_equal(&vec![7, 8], &vec![7, 8]));
    assert!(!bytes_equal(&vec![7, 8], &vec![7, 9]));
}
