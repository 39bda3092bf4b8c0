use swap_watcher::logs::{log_eq, logs_eq, LogEntry};
use swap_watcher::store::BlockStore;

fn h256_low(n: u8) -> Vec<u8> {
    let mut v = vec![0u8; 32];
    v[31] = n;
    v
}

fn sample_log(block_number: u64, block_hash: Vec<u8>, data: Vec<u8>) -> LogEntry {
    LogEntry {
        address: vec![0u8; 20],
        topics: vec![h256_low(5)],
        data,
        block_hash: Some(block_hash),
        block_number: Some(block_number),
        transaction_hash: Some(h256_low(3)),
        transaction_index: Some(0),
        log_index: Some(0),
        transaction_log_index: Some(0),
        log_type: None,
        removed: Some(false),
    }
}

#[test]
fn block_with_no_matching_logs_is_never_stored() {
    let mut store = BlockStore::new();
    store.add_logs(42, h256_low(1), Vec::new());
    assert!(store.get(42).is_none());
}

#[test]
fn block_with_matching_logs_is_stored_exactly() {
    let mut store = BlockStore::new();
    let logs = vec![sample_log(42, h256_low(1), vec![1, 2, 3])];
    store.add_logs(42, h256_low(1), logs);

    let stored = store.get(42).unwrap();
    assert_eq!(stored.block_hash, h256_low(1));
    let expected = vec![sample_log(42, h256_low(1), vec![1, 2, 3])];
    assert!(logs_eq(&stored.log, &expected));
    assert!(store.get(41).is_none());
}

#[test]
fn a_second_ingestion_replaces_the_entry() {
    let mut store = BlockStore::new();
    store.add_logs(7, h256_low(1), vec![sample_log(7, h256_low(1), vec![1])]);
    store.add_logs(7, h256_low(2), vec![sample_log(7, h256_low(2), vec![2])]);

    let stored = store.get(7).unwrap();
    assert_eq!(stored.block_hash, h256_low(2));
    assert_eq!(stored.log.len(), 1);
    assert!(log_eq(&stored.log[0], &sample_log(7, h256_low(2), vec![2])));
}

#[test]
fn confirmation_target_of_missing_block_is_silent() {
    // A confirmation report for a block with no observation emits nothing.
    let store = BlockStore::new();
    assert!(store.confirmation_target(5).is_none());
}

#[test]
fn confirmation_target_returns_the_recorded_hash() {
    let mut store = BlockStore::new();
    store.add_logs(9, h256_low(4), vec![sample_log(9, h256_low(4), vec![])]);
    assert_eq!(store.confirmation_target(9), Some(h256_low(4)));
}

#[test]
fn log_equality_is_field_for_field() {
    let a = sample_log(1, h256_low(1), vec![9]);
    let same = sample_log(1, h256_low(1), vec![9]);
    let mut other = sample_log(1, h256_low(1), vec![9]);
    other.log_type = Some(String::from("removed"));

    assert!(log_eq(&a, &same));
    assert!(!log_eq(&a, &other));
}
