//! The block observation store: an in-memory map from block number to the
//! hash and matching logs that were observed when the block was first
//! ingested. An entry exists for a block number exactly when at least one
//! matching log was found at ingestion time; entries are never mutated
//! afterwards, and the store never forgets one — unbounded growth across
//! the process lifetime is an accepted non-goal of the design.

use vstd::prelude::*;

use crate::logs::{copy_bytes, log_seq_view, LogEntry, LogEntryView};

verus! {

/// What was observed for one block: its hash and the matching logs,
/// captured at first-observation time.
#[derive(Debug)]
pub struct BlockData {
    pub block_hash: Vec<u8>,
    pub log: Vec<LogEntry>,
}

/// The mathematical value of a block observation.
#[verifier::ext_equal]
pub ghost struct BlockDataView {
    pub block_hash: Seq<u8>,
    pub log: Seq<LogEntryView>,
}

impl View for BlockData {
    type V = BlockDataView;

    open spec fn view(&self) -> BlockDataView {
        BlockDataView { block_hash: self.block_hash@, log: log_seq_view(self.log@) }
    }
}

/// How one ingestion step changes the store: a block with no matching logs
/// leaves the store untouched, a block with at least one is recorded under
/// its number with the fetched hash and logs.
pub open spec fn ingest(
    m: Map<u64, BlockDataView>,
    block_number: u64,
    block_hash: Seq<u8>,
    logs: Seq<LogEntryView>,
) -> Map<u64, BlockDataView> {
    if logs.len() == 0 {
        m
    } else {
        m.insert(block_number, BlockDataView { block_hash, log: logs })
    }
}

/// A block number with zero matching logs at ingestion is never stored.
pub proof fn lemma_empty_fetch_not_stored(
    m: Map<u64, BlockDataView>,
    block_number: u64,
    block_hash: Seq<u8>,
    logs: Seq<LogEntryView>,
)
    requires
        logs.len() == 0,
        !m.contains_key(block_number),
    ensures
        !ingest(m, block_number, block_hash, logs).contains_key(block_number),
{
}

/// A block number with at least one matching log at ingestion is stored
/// with exactly the hash and logs that the transport returned.
pub proof fn lemma_nonempty_fetch_stored(
    m: Map<u64, BlockDataView>,
    block_number: u64,
    block_hash: Seq<u8>,
    logs: Seq<LogEntryView>,
)
    requires
        logs.len() > 0,
    ensures
        ingest(m, block_number, block_hash, logs).contains_key(block_number),
        ingest(m, block_number, block_hash, logs)[block_number].block_hash == block_hash,
        ingest(m, block_number, block_hash, logs)[block_number].log == logs,
{
}

/// The observation store, keyed by block number.
pub struct BlockStore {
    entries: Vec<(u64, BlockData)>,
}

impl BlockStore {
    /// The map held in a sequence of keyed entries.
    spec fn entries_map(s: Seq<(u64, BlockData)>) -> Map<u64, BlockDataView>
        decreases s.len(),
    {
        if s.len() == 0 {
            Map::empty()
        } else {
            Self::entries_map(s.drop_last()).insert(s.last().0, s.last().1@)
        }
    }

    /// The store is well formed: block numbers key it uniquely.
    /// Constructors establish this and every method preserves it.
    pub closed spec fn wf(&self) -> bool {
        forall|i: int, j: int|
            0 <= i < j < self.entries@.len() ==> self.entries@[i].0 != self.entries@[j].0
    }

    /// Creates an empty store.
    pub fn new() -> (s: BlockStore)
        ensures
            s.wf(),
            s@ == Map::<u64, BlockDataView>::empty(),
    {
        BlockStore { entries: Vec::new() }
    }

    /// The position of a block number among the entries, if it stands there.
    fn find_index(&self, block_number: u64) -> (r: Option<usize>)
        ensures
            match r {
                Some(i) => i < self.entries@.len() && self.entries@[i as int].0 == block_number,
                None => forall|j: int|
                    0 <= j < self.entries@.len() ==> self.entries@[j].0 != block_number,
            },
    {
        let mut i: usize = 0;
        while i < self.entries.len()
            invariant
                i <= self.entries@.len(),
                forall|j: int| 0 <= j < i ==> self.entries@[j].0 != block_number,
            decreases self.entries@.len() - i,
        {
            if self.entries[i].0 == block_number {
                return Some(i);
            }
            i += 1;
        }
        None
    }

    /// Records the outcome of ingesting one block: the fetched logs are
    /// stored under the block's number together with the fetched hash when
    /// at least one matched, and nothing is stored when none did.
    pub fn add_logs(&mut self, block_number: u64, block_hash: Vec<u8>, logs: Vec<LogEntry>)
        requires
            old(self).wf(),
        ensures
            final(self).wf(),
            final(self)@ == ingest(old(self)@, block_number, block_hash@, log_seq_view(logs@)),
    {
        if logs.len() == 0 {
            return ;
        }
        let data = BlockData { block_hash, log: logs };
        let ghost s0 = self.entries@;
        match self.find_index(block_number) {
            Some(i) => {
                self.entries[i] = (block_number, data);
                proof {
                    let e = self.entries@[i as int];
                    assert(self.entries@ == s0.update(i as int, e));
                    lemma_entries_map_update(s0, i as int, e);
                    assert forall|p: int, q: int|
                        0 <= p < q < self.entries@.len() implies self.entries@[p].0
                        != self.entries@[q].0 by {
                        assert(self.entries@[p].0 == s0[p].0);
                        assert(self.entries@[q].0 == s0[q].0);
                    }
                }
            },
            None => {
                self.entries.push((block_number, data));
                proof {
                    assert(self.entries@.drop_last() =~= s0);
                }
            },
        }
    }

    /// Looks up the observation stored for a block number.
    pub fn get(&self, block_number: u64) -> (r: Option<&BlockData>)
        requires
            self.wf(),
        ensures
            match r {
                Some(d) => self@.contains_key(block_number) && d@ == self@[block_number],
                None => !self@.contains_key(block_number),
            },
    {
        let ghost s = self.entries@;
        let mut i: usize = 0;
        while i < self.entries.len()
            invariant
                self.entries@ == s,
                i <= s.len(),
                forall|p: int, q: int| 0 <= p < q < s.len() ==> s[p].0 != s[q].0,
                forall|j: int| 0 <= j < i ==> s[j].0 != block_number,
            decreases s.len() - i,
        {
            if self.entries[i].0 == block_number {
                proof {
                    lemma_entries_map_at(s, i as int);
                }
                return Some(&self.entries[i].1);
            }
            i += 1;
        }
        proof {
            lemma_entries_map_absent(s, block_number);
        }
        None
    }

    /// The hash to re-fetch for a confirmation report: the recorded hash of
    /// the observation for the given block number, if one exists. Absence
    /// means no matching events were ever seen there, and the report is a
    /// silent no-op.
    pub fn confirmation_target(&self, block_number: u64) -> (r: Option<Vec<u8>>)
        requires
            self.wf(),
        ensures
            match r {
                Some(h) => self@.contains_key(block_number) && h@ == self@[block_number].block_hash,
                None => !self@.contains_key(block_number),
            },
    {
        match self.get(block_number) {
            Some(d) => Some(copy_bytes(&d.block_hash)),
            None => None,
        }
    }

    /// The stored entries as a list of block numbers with their data,
    /// for callers that walk the whole store.
    pub fn entries(&self) -> (r: &Vec<(u64, BlockData)>)
        requires
            self.wf(),
        ensures
            forall|i: int, j: int| 0 <= i < j < r@.len() ==> r@[i].0 != r@[j].0,
            forall|i: int|
                #![trigger r@[i]]
                0 <= i < r@.len() ==> self@.contains_key(r@[i].0) && self@[r@[i].0] == r@[i].1@,
            forall|k: u64|
                self@.contains_key(k) ==> exists|i: int| 0 <= i < r@.len() && r@[i].0 == k,
    {
        proof {
            assert forall|i: int| 0 <= i < self.entries@.len() implies self@.contains_key(
                self.entries@[i].0,
            ) && self@[self.entries@[i].0] == self.entries@[i].1@ by {
                lemma_entries_map_at(self.entries@, i);
            }
            assert forall|k: u64| self@.contains_key(k) implies exists|i: int|
                0 <= i < self.entries@.len() && self.entries@[i].0 == k by {
                lemma_entries_map_covered(self.entries@, k);
            }
        }
        &self.entries
    }
}

impl View for BlockStore {
    type V = Map<u64, BlockDataView>;

    closed spec fn view(&self) -> Map<u64, BlockDataView> {
        BlockStore::entries_map(self.entries@)
    }
}

/// An entry of a uniquely keyed sequence is in the map it holds,
/// with exactly its data.
proof fn lemma_entries_map_at(s: Seq<(u64, BlockData)>, i: int)
    requires
        forall|p: int, q: int| 0 <= p < q < s.len() ==> s[p].0 != s[q].0,
        0 <= i < s.len(),
    ensures
        BlockStore::entries_map(s).contains_key(s[i].0),
        BlockStore::entries_map(s)[s[i].0] == s[i].1@,
    decreases s.len(),
{
    if i < s.len() - 1 {
        assert(s.drop_last()[i] == s[i]);
        lemma_entries_map_at(s.drop_last(), i);
        assert(s[i].0 != s.last().0);
    }
}

/// A key under which no entry stands is not in the map the sequence holds.
proof fn lemma_entries_map_absent(s: Seq<(u64, BlockData)>, k: u64)
    requires
        forall|i: int| 0 <= i < s.len() ==> s[i].0 != k,
    ensures
        !BlockStore::entries_map(s).contains_key(k),
    decreases s.len(),
{
    if s.len() > 0 {
        assert(forall|i: int| 0 <= i < s.drop_last().len() ==> s.drop_last()[i] == s[i]);
        lemma_entries_map_absent(s.drop_last(), k);
    }
}

/// Every key of the held map stands at some index of the sequence.
proof fn lemma_entries_map_covered(s: Seq<(u64, BlockData)>, k: u64)
    requires
        BlockStore::entries_map(s).contains_key(k),
    ensures
        exists|i: int| 0 <= i < s.len() && s[i].0 == k,
    decreases s.len(),
{
    if s.len() > 0 {
        if s.last().0 == k {
            assert(s[s.len() - 1].0 == k);
        } else {
            lemma_entries_map_covered(s.drop_last(), k);
            let i = choose|i: int| 0 <= i < s.drop_last().len() && s.drop_last()[i].0 == k;
            assert(s[i].0 == k);
        }
    }
}

/// Replacing the entry at one index replaces that key's value in the map
/// the sequence holds.
proof fn lemma_entries_map_update(s: Seq<(u64, BlockData)>, i: int, e: (u64, BlockData))
    requires
        forall|p: int, q: int| 0 <= p < q < s.len() ==> s[p].0 != s[q].0,
        0 <= i < s.len(),
        e.0 == s[i].0,
    ensures
        BlockStore::entries_map(s.update(i, e)) == BlockStore::entries_map(s).insert(e.0, e.1@),
    decreases s.len(),
{
    let su = s.update(i, e);
    if i == s.len() - 1 {
        assert(su.drop_last() =~= s.drop_last());
        assert(su.last() == e);
        assert(BlockStore::entries_map(s.drop_last()).insert(e.0, s[i].1@).insert(e.0, e.1@)
            =~= BlockStore::entries_map(s.drop_last()).insert(e.0, e.1@));
    } else {
        assert(su.drop_last() =~= s.drop_last().update(i, e));
        assert(forall|p: int| 0 <= p < s.drop_last().len() ==> s.drop_last()[p] == s[p]);
        lemma_entries_map_update(s.drop_last(), i, e);
        assert(su.last() == s.last());
        assert(e.0 != s.last().0);
        assert(BlockStore::entries_map(s.drop_last()).insert(e.0, e.1@).insert(
            s.last().0,
            s.last().1@,
        ) =~= BlockStore::entries_map(s.drop_last()).insert(s.last().0, s.last().1@).insert(
            e.0,
            e.1@,
        ));
    }
}

} // verus!
