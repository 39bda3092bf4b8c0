//! The raw log entries that the transport returns for a block: a topic list,
//! an opaque payload, and the echoed identifying metadata. Reorganization
//! detection compares whole entries byte for byte, so every field takes part
//! in the equality functions here.

use vstd::prelude::*;

verus! {

/// One raw log entry matching the watched contract and event topic,
/// as the transport reported it.
#[derive(Debug)]
pub struct LogEntry {
    pub address: Vec<u8>,
    pub topics: Vec<Vec<u8>>,
    pub data: Vec<u8>,
    pub block_hash: Option<Vec<u8>>,
    pub block_number: Option<u64>,
    pub transaction_hash: Option<Vec<u8>>,
    pub transaction_index: Option<u64>,
    pub log_index: Option<u64>,
    pub transaction_log_index: Option<u64>,
    pub log_type: Option<String>,
    pub removed: Option<bool>,
}

/// The mathematical value of a log entry.
#[verifier::ext_equal]
pub ghost struct LogEntryView {
    pub address: Seq<u8>,
    pub topics: Seq<Seq<u8>>,
    pub data: Seq<u8>,
    pub block_hash: Option<Seq<u8>>,
    pub block_number: Option<u64>,
    pub transaction_hash: Option<Seq<u8>>,
    pub transaction_index: Option<u64>,
    pub log_index: Option<u64>,
    pub transaction_log_index: Option<u64>,
    pub log_type: Option<Seq<char>>,
    pub removed: Option<bool>,
}

/// The sequences held in a sequence of byte vectors.
pub open spec fn bytes_seq_view(s: Seq<Vec<u8>>) -> Seq<Seq<u8>> {
    s.map_values(|v: Vec<u8>| v@)
}

/// The view of an optional byte vector.
pub open spec fn opt_bytes_view(o: Option<Vec<u8>>) -> Option<Seq<u8>> {
    match o {
        Some(v) => Some(v@),
        None => None,
    }
}

/// The view of an optional string.
pub open spec fn opt_string_view(o: Option<String>) -> Option<Seq<char>> {
    match o {
        Some(s) => Some(s@),
        None => None,
    }
}

impl View for LogEntry {
    type V = LogEntryView;

    open spec fn view(&self) -> LogEntryView {
        LogEntryView {
            address: self.address@,
            topics: bytes_seq_view(self.topics@),
            data: self.data@,
            block_hash: opt_bytes_view(self.block_hash),
            block_number: self.block_number,
            transaction_hash: opt_bytes_view(self.transaction_hash),
            transaction_index: self.transaction_index,
            log_index: self.log_index,
            transaction_log_index: self.transaction_log_index,
            log_type: opt_string_view(self.log_type),
            removed: self.removed,
        }
    }
}

/// The views of the entries in a sequence of logs.
pub open spec fn log_seq_view(s: Seq<LogEntry>) -> Seq<LogEntryView> {
    s.map_values(|l: LogEntry| l@)
}

/// Compares two byte vectors by contents.
pub fn bytes_eq(a: &Vec<u8>, b: &Vec<u8>) -> (r: bool)
    ensures
        r == (a@ == b@),
{
    if a.len() != b.len() {
        return false;
    }
    let mut i: usize = 0;
    while i < a.len()
        invariant
            a@.len() == b@.len(),
            i <= a@.len(),
            forall|j: int| 0 <= j < i ==> a@[j] == b@[j],
        decreases a@.len() - i,
    {
        if a[i] != b[i] {
            return false;
        }
        i += 1;
    }
    proof {
        assert(a@ =~= b@);
    }
    true
}

/// Copies a byte vector.
pub fn copy_bytes(v: &Vec<u8>) -> (r: Vec<u8>)
    ensures
        r@ == v@,
{
    let mut r: Vec<u8> = Vec::new();
    let mut i: usize = 0;
    while i < v.len()
        invariant
            i <= v@.len(),
            r@ == v@.subrange(0, i as int),
        decreases v@.len() - i,
    {
        r.push(v[i]);
        proof {
            assert(r@ =~= v@.subrange(0, i + 1));
        }
        i += 1;
    }
    proof {
        assert(v@.subrange(0, v@.len() as int) =~= v@);
    }
    r
}

/// Compares two topic lists by contents.
pub fn topics_eq(a: &Vec<Vec<u8>>, b: &Vec<Vec<u8>>) -> (r: bool)
    ensures
        r == (bytes_seq_view(a@) == bytes_seq_view(b@)),
{
    if a.len() != b.len() {
        assert(bytes_seq_view(a@).len() != bytes_seq_view(b@).len());
        return false;
    }
    let mut i: usize = 0;
    while i < a.len()
        invariant
            a@.len() == b@.len(),
            i <= a@.len(),
            forall|j: int| 0 <= j < i ==> a@[j]@ == b@[j]@,
        decreases a@.len() - i,
    {
        if !bytes_eq(&a[i], &b[i]) {
            assert(bytes_seq_view(a@)[i as int] != bytes_seq_view(b@)[i as int]);
            return false;
        }
        i += 1;
    }
    proof {
        assert(bytes_seq_view(a@) =~= bytes_seq_view(b@));
    }
    true
}

/// Compares two optional byte vectors by contents.
pub fn opt_bytes_eq(a: &Option<Vec<u8>>, b: &Option<Vec<u8>>) -> (r: bool)
    ensures
        r == (opt_bytes_view(*a) == opt_bytes_view(*b)),
{
    match (a, b) {
        (Some(x), Some(y)) => bytes_eq(x, y),
        (None, None) => true,
        _ => false,
    }
}

/// Compares two optional 64-bit values.
pub fn opt_u64_eq(a: &Option<u64>, b: &Option<u64>) -> (r: bool)
    ensures
        r == (*a == *b),
{
    match (a, b) {
        (Some(x), Some(y)) => *x == *y,
        (None, None) => true,
        _ => false,
    }
}

/// Compares two optional booleans.
pub fn opt_bool_eq(a: &Option<bool>, b: &Option<bool>) -> (r: bool)
    ensures
        r == (*a == *b),
{
    match (a, b) {
        (Some(x), Some(y)) => *x == *y,
        (None, None) => true,
        _ => false,
    }
}

/// Compares two optional strings by contents.
pub fn opt_string_eq(a: &Option<String>, b: &Option<String>) -> (r: bool)
    ensures
        r == (opt_string_view(*a) == opt_string_view(*b)),
{
    match (a, b) {
        (Some(x), Some(y)) => x.eq(y),
        (None, None) => true,
        _ => false,
    }
}

/// Compares two log entries field for field.
pub fn log_eq(a: &LogEntry, b: &LogEntry) -> (r: bool)
    ensures
        r == (a@ == b@),
{
    let r = bytes_eq(&a.address, &b.address) && topics_eq(&a.topics, &b.topics) && bytes_eq(
        &a.data,
        &b.data,
    ) && opt_bytes_eq(&a.block_hash, &b.block_hash) && opt_u64_eq(
        &a.block_number,
        &b.block_number,
    ) && opt_bytes_eq(&a.transaction_hash, &b.transaction_hash) && opt_u64_eq(
        &a.transaction_index,
        &b.transaction_index,
    ) && opt_u64_eq(&a.log_index, &b.log_index) && opt_u64_eq(
        &a.transaction_log_index,
        &b.transaction_log_index,
    ) && opt_string_eq(&a.log_type, &b.log_type) && opt_bool_eq(&a.removed, &b.removed);
    proof {
        if r {
            assert(a@ =~= b@);
        }
    }
    r
}

/// Compares two log sequences entry for entry; reorganization detection
/// demands equality of the whole sequences, length and order included.
pub fn logs_eq(a: &Vec<LogEntry>, b: &Vec<LogEntry>) -> (r: bool)
    ensures
        r == (log_seq_view(a@) == log_seq_view(b@)),
{
    if a.len() != b.len() {
        assert(log_seq_view(a@).len() != log_seq_view(b@).len());
        return false;
    }
    let mut i: usize = 0;
    while i < a.len()
        invariant
            a@.len() == b@.len(),
            i <= a@.len(),
            forall|j: int| 0 <= j < i ==> a@[j]@ == b@[j]@,
        decreases a@.len() - i,
    {
        if !log_eq(&a[i], &b[i]) {
            assert(log_seq_view(a@)[i as int] != log_seq_view(b@)[i as int]);
            return false;
        }
        i += 1;
    }
    proof {
        assert(log_seq_view(a@) =~= log_seq_view(b@));
    }
    true
}

} // verus!
