//! Typed helpers for relaying watcher results into an EVM-compatible chain
//! runtime: Solidity-ABI call encoding, EIP-1559 envelope construction for
//! the unsigned relay path, and the byte-level conventions of the host
//! chain's storage keys.

pub mod abi;
pub mod decode;
pub mod devices;
pub mod envelope;
pub mod hexfmt;
pub mod keys;
pub mod selector;
pub mod words;
