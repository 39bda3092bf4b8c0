//! The reorganization detector. Every stored block that has passed the
//! confirmation depth is verified against a fresh fetch of the logs for its
//! originally recorded hash: the fetched sequence must equal what was first
//! observed, byte for byte and in order. Any mismatch is an unrecoverable
//! consistency violation.
//!
//! The network round-trips themselves are the caller's: it fetches the logs
//! for each target that `reorg_targets` names and hands the results in, and
//! `check_for_reorganization` delivers the verdict.

use vstd::prelude::*;

use crate::logs::{log_seq_view, logs_eq, LogEntry, LogEntryView};
use crate::store::{BlockDataView, BlockStore};

verus! {

/// The fixed lag behind the chain head at which a block's events are
/// considered safe to report and begin periodic verification.
pub const CONFIRMATION_DEPTH: u64 = 5;

/// A stored block is due for verification when its depth below the head,
/// `head - (block + CONFIRMATION_DEPTH)`, is strictly positive. A depth
/// that would underflow counts as not due.
pub open spec fn due(head: u64, block: u64) -> bool {
    head > block + CONFIRMATION_DEPTH
}

/// Whether a stored block has passed the confirmation depth and is due for
/// reorganization verification; a depth computation that would underflow
/// means the block is skipped, not flagged.
pub fn reorg_due(head: u64, block: u64) -> (r: bool)
    ensures
        r == due(head, block),
{
    match block.checked_add(CONFIRMATION_DEPTH) {
        Some(limit) => head > limit,
        None => false,
    }
}

/// The block number whose events are due for a confirmation report when
/// the chain head stands at `head`: the block exactly the confirmation
/// depth behind it. There is none while the head is still within the
/// depth.
pub fn confirmed_block_number(head: u64) -> (r: Option<u64>)
    ensures
        head >= CONFIRMATION_DEPTH ==> r == Some((head - CONFIRMATION_DEPTH) as u64),
        head < CONFIRMATION_DEPTH ==> r is None,
{
    head.checked_sub(CONFIRMATION_DEPTH)
}

/// The fatal consistency violation: a block's re-fetched logs differ from
/// what was observed at ingestion time.
#[derive(Clone, Copy, PartialEq, Eq, Structural, Debug)]
pub struct ReorgError;

impl ReorgError {
    /// The message that the process aborts with.
    pub fn message(&self) -> (r: String)
        ensures
            r@ == "Error: Reorganization happen after depth 5!"@,
    {
        "Error: Reorganization happen after depth 5!".to_owned()
    }
}

/// Verifies one stored observation against the logs of a repeated fetch by
/// the same recorded hash: success exactly when the two sequences are
/// identical, length and order included.
pub fn check_block(stored: &Vec<LogEntry>, fetched: &Vec<LogEntry>) -> (r: Result<(), ReorgError>)
    ensures
        r.is_ok() <==> log_seq_view(stored@) == log_seq_view(fetched@),
{
    if logs_eq(stored, fetched) {
        Ok(())
    } else {
        Err(ReorgError)
    }
}

/// The re-fetched log sequences, one per due block, as mathematical values.
pub open spec fn refetch_view(s: Seq<(u64, Vec<LogEntry>)>) -> Seq<(u64, Seq<LogEntryView>)> {
    s.map_values(|p: (u64, Vec<LogEntry>)| (p.0, log_seq_view(p.1@)))
}

/// The first re-fetch recorded for a block number, if any.
pub open spec fn refetch_lookup(s: Seq<(u64, Seq<LogEntryView>)>, block: u64) -> Option<
    Seq<LogEntryView>,
>
    decreases s.len(),
{
    if s.len() == 0 {
        None
    } else if s[0].0 == block {
        Some(s[0].1)
    } else {
        refetch_lookup(s.drop_first(), block)
    }
}

/// The caller fetched logs for every stored block that is due.
pub open spec fn covers(
    m: Map<u64, BlockDataView>,
    head: u64,
    refetched: Seq<(u64, Seq<LogEntryView>)>,
) -> bool {
    forall|b: u64|
        m.contains_key(b) && due(head, b) ==> (#[trigger] refetch_lookup(refetched, b)) is Some
}

/// No reorganization: for every stored block past the confirmation depth,
/// the re-fetched logs equal the logs observed at ingestion time.
pub open spec fn no_reorg(
    m: Map<u64, BlockDataView>,
    head: u64,
    refetched: Seq<(u64, Seq<LogEntryView>)>,
) -> bool {
    forall|b: u64|
        m.contains_key(b) && due(head, b) ==> (#[trigger] refetch_lookup(refetched, b)) == Some(
            m[b].log,
        )
}

/// A stored block at or below the confirmation depth is skipped, never
/// checked: removing its entry from the store leaves the outcome unchanged.
pub proof fn lemma_shallow_block_not_checked(
    m: Map<u64, BlockDataView>,
    head: u64,
    block: u64,
    refetched: Seq<(u64, Seq<LogEntryView>)>,
)
    requires
        !due(head, block),
    ensures
        no_reorg(m, head, refetched) == no_reorg(m.remove(block), head, refetched),
{
    let mr = m.remove(block);
    if no_reorg(m, head, refetched) {
        assert forall|b: u64| mr.contains_key(b) && due(head, b) implies (
        #[trigger] refetch_lookup(refetched, b)) == Some(mr[b].log) by {
            assert(m.contains_key(b));
        }
    }
    if no_reorg(mr, head, refetched) {
        assert forall|b: u64| m.contains_key(b) && due(head, b) implies (
        #[trigger] refetch_lookup(refetched, b)) == Some(m[b].log) by {
            assert(b != block);
            assert(mr.contains_key(b));
        }
    }
}

/// The entry a linear scan finds first is the looked-up one.
proof fn lemma_refetch_lookup_at(s: Seq<(u64, Seq<LogEntryView>)>, i: int, block: u64)
    requires
        0 <= i < s.len(),
        s[i].0 == block,
        forall|j: int| 0 <= j < i ==> s[j].0 != block,
    ensures
        refetch_lookup(s, block) == Some(s[i].1),
    decreases i,
{
    if i > 0 {
        assert(forall|j: int| 0 <= j < i - 1 ==> s.drop_first()[j] == s[j + 1]);
        lemma_refetch_lookup_at(s.drop_first(), i - 1, block);
    }
}

/// A block number under which no re-fetch stands looks up to nothing.
proof fn lemma_refetch_lookup_absent(s: Seq<(u64, Seq<LogEntryView>)>, block: u64)
    requires
        forall|j: int| 0 <= j < s.len() ==> s[j].0 != block,
    ensures
        refetch_lookup(s, block) is None,
    decreases s.len(),
{
    if s.len() > 0 {
        assert(forall|j: int| 0 <= j < s.len() - 1 ==> s.drop_first()[j] == s[j + 1]);
        lemma_refetch_lookup_absent(s.drop_first(), block);
    }
}

/// The first re-fetch recorded for a block number, as the stored vector.
fn find_refetch<'a>(refetched: &'a Vec<(u64, Vec<LogEntry>)>, block: u64) -> (r: Option<
    &'a Vec<LogEntry>,
>)
    ensures
        match r {
            Some(v) => refetch_lookup(refetch_view(refetched@), block) == Some(log_seq_view(v@)),
            None => refetch_lookup(refetch_view(refetched@), block) is None,
        },
{
    let mut i: usize = 0;
    while i < refetched.len()
        invariant
            i <= refetched@.len(),
            forall|j: int| 0 <= j < i ==> refetched@[j].0 != block,
        decreases refetched@.len() - i,
    {
        if refetched[i].0 == block {
            proof {
                lemma_refetch_lookup_at(refetch_view(refetched@), i as int, block);
            }
            return Some(&refetched[i].1);
        }
        i += 1;
    }
    proof {
        lemma_refetch_lookup_absent(refetch_view(refetched@), block);
    }
    None
}

/// The blocks that the detector must verify on this cycle: every stored
/// block number past the confirmation depth, with its recorded hash to
/// fetch by. Blocks at or below the depth are left out.
pub fn reorg_targets(store: &BlockStore, head: u64) -> (r: Vec<(u64, Vec<u8>)>)
    requires
        store.wf(),
    ensures
        forall|i: int|
            #![trigger r@[i]]
            0 <= i < r@.len() ==> store@.contains_key(r@[i].0) && due(head, r@[i].0) && r@[i].1@
                == store@[r@[i].0].block_hash,
        forall|b: u64|
            store@.contains_key(b) && due(head, b) ==> exists|i: int|
                0 <= i < r@.len() && r@[i].0 == b,
        forall|i: int, j: int| 0 <= i < j < r@.len() ==> r@[i].0 != r@[j].0,
{
    let entries = store.entries();
    let mut r: Vec<(u64, Vec<u8>)> = Vec::new();
    let mut i: usize = 0;
    while i < entries.len()
        invariant
            i <= entries@.len(),
            forall|p: int, q: int| 0 <= p < q < entries@.len() ==> entries@[p].0 != entries@[q].0,
            forall|p: int|
                #![trigger entries@[p]]
                0 <= p < entries@.len() ==> store@.contains_key(entries@[p].0)
                    && store@[entries@[p].0] == entries@[p].1@,
            forall|k: u64|
                store@.contains_key(k) ==> exists|p: int|
                    0 <= p < entries@.len() && entries@[p].0 == k,
            forall|x: int|
                #![trigger r@[x]]
                0 <= x < r@.len() ==> store@.contains_key(r@[x].0) && due(head, r@[x].0)
                    && r@[x].1@ == store@[r@[x].0].block_hash,
            forall|p: int|
                0 <= p < i && due(head, #[trigger] entries@[p].0) ==> exists|x: int|
                    0 <= x < r@.len() && r@[x].0 == entries@[p].0,
            forall|x: int, y: int| 0 <= x < y < r@.len() ==> r@[x].0 != r@[y].0,
            forall|x: int|
                0 <= x < r@.len() ==> exists|p: int|
                    0 <= p < i && entries@[p].0 == (#[trigger] r@[x].0),
        decreases entries@.len() - i,
    {
        let block = entries[i].0;
        if reorg_due(head, block) {
            let hash = crate::logs::copy_bytes(&entries[i].1.block_hash);
            let ghost r0 = r@;
            r.push((block, hash));
            proof {
                assert(r@[r@.len() - 1].0 == block);
                assert forall|p: int|
                    0 <= p < i + 1 && due(head, #[trigger] entries@[p].0) implies exists|x: int|
                    0 <= x < r@.len() && r@[x].0 == entries@[p].0 by {
                    if p < i {
                        let x = choose|x: int| 0 <= x < r0.len() && r0[x].0 == entries@[p].0;
                        assert(r@[x].0 == entries@[p].0);
                    } else {
                        assert(r@[r@.len() - 1].0 == entries@[p].0);
                    }
                }
            }
        }
        i += 1;
    }
    proof {
        assert forall|b: u64| store@.contains_key(b) && due(head, b) implies exists|x: int|
            0 <= x < r@.len() && r@[x].0 == b by {
            let p = choose|p: int| 0 <= p < entries@.len() && entries@[p].0 == b;
            assert(due(head, entries@[p].0));
        }
    }
    r
}

/// The verdict on one processing cycle: success exactly when every stored
/// block past the confirmation depth re-fetched the log sequence that was
/// observed at ingestion time. The caller supplies a re-fetch for each due
/// block; blocks whose depth is zero or would underflow are skipped.
pub fn check_for_reorganization(
    store: &BlockStore,
    head: u64,
    refetched: &Vec<(u64, Vec<LogEntry>)>,
) -> (r: Result<(), ReorgError>)
    requires
        store.wf(),
        covers(store@, head, refetch_view(refetched@)),
    ensures
        r.is_ok() <==> no_reorg(store@, head, refetch_view(refetched@)),
{
    let entries = store.entries();
    let ghost rf = refetch_view(refetched@);
    let mut i: usize = 0;
    while i < entries.len()
        invariant
            i <= entries@.len(),
            rf == refetch_view(refetched@),
            covers(store@, head, rf),
            forall|p: int, q: int| 0 <= p < q < entries@.len() ==> entries@[p].0 != entries@[q].0,
            forall|p: int|
                #![trigger entries@[p]]
                0 <= p < entries@.len() ==> store@.contains_key(entries@[p].0)
                    && store@[entries@[p].0] == entries@[p].1@,
            forall|k: u64|
                store@.contains_key(k) ==> exists|p: int|
                    0 <= p < entries@.len() && entries@[p].0 == k,
            forall|p: int|
                0 <= p < i && due(head, #[trigger] entries@[p].0) ==> refetch_lookup(
                    rf,
                    entries@[p].0,
                ) == Some(entries@[p].1@.log),
        decreases entries@.len() - i,
    {
        let block = entries[i].0;
        if reorg_due(head, block) {
            match find_refetch(refetched, block) {
                Some(fetched) => {
                    if !logs_eq(&entries[i].1.log, fetched) {
                        proof {
                            assert(store@.contains_key(block));
                            assert(store@[block].log == entries@[i as int].1@.log);
                            assert(refetch_lookup(rf, block) != Some(store@[block].log));
                        }
                        return Err(ReorgError);
                    }
                },
                None => {
                    proof {
                        assert(store@.contains_key(block) && due(head, block));
                    }
                    unreached()
                },
            }
        }
        i += 1;
    }
    proof {
        assert forall|b: u64| store@.contains_key(b) && due(head, b) implies (
        #[trigger] refetch_lookup(rf, b)) == Some(store@[b].log) by {
            let p = choose|p: int| 0 <= p < entries@.len() && entries@[p].0 == b;
            assert(due(head, entries@[p].0));
            assert(store@[b] == entries@[p].1@);
        }
    }
    Ok(())
}

} // verus!
