//! Watches a contract's swap events on a chain, keeps an in-memory record of
//! which logs were observed in each block, decodes the matched events into
//! trade records, and detects reorganizations of blocks that have passed a
//! fixed confirmation depth.
//!
//! The network transport, the ABI schema and the output sink are external
//! collaborators: the functions here work on plain values that the caller
//! fetched, and state exactly how the store, the reorganization verdict and
//! the decoded records are computed from them.

pub mod decoder;
pub mod logs;
pub mod reorg;
pub mod store;
pub mod u256;
