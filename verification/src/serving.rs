//! What the node decides while serving peers and RPC clients: share
//! request bounds, block pages, latency and error accounting, and the hash
//! that stands for a snapshot checkpoint.
use crate::node_error::NodeError;
use crate::rate_limit::DaError;
use crate::state_sync::DEFAULT_MAX_DA_SHARES_PER_REQUEST;
use crate::numeric::{decimal_spec, push_decimal};
use crate::text::{concat_str, str_eq};
use vstd::prelude::*;

verus! {

/// The block hash recorded for a state imported from a snapshot whose
/// manifest hashes to `manifest_hash`.
pub fn snapshot_checkpoint_block_hash(manifest_hash: &str) -> (hash: String)
    ensures
        hash@ == "snapshot-checkpoint:"@ + manifest_hash@,
{
    concat_str("snapshot-checkpoint:", manifest_hash)
}

/// A duration in microseconds as the node reports it: at least one, and at
/// most `u64::MAX`.
pub fn elapsed_micros(micros: u128) -> (reported: u64)
    ensures
        reported == if micros == 0 {
            1
        } else if micros > u64::MAX {
            u64::MAX
        } else {
            micros as u64
        },
{
    if micros == 0 {
        1
    } else if micros > u64::MAX as u128 {
        u64::MAX
    } else {
        micros as u64
    }
}

/// Checks the share count of a share request before anything is loaded:
/// it must be positive and at most `DEFAULT_MAX_DA_SHARES_PER_REQUEST`.
pub fn check_da_share_request(max_shares: u32) -> (result: Result<(), NodeError>)
    ensures
        max_shares == 0 ==> result == Err::<(), NodeError>(
            NodeError::DataAvailability(DaError::InvalidChunkSize),
        ),
        max_shares > DEFAULT_MAX_DA_SHARES_PER_REQUEST ==> (result matches Err(
            NodeError::DataAvailability(DaError::InvalidPayload(m)),
        ) && m@ == "DA share request exceeds maximum share count"@),
        0 < max_shares <= DEFAULT_MAX_DA_SHARES_PER_REQUEST ==> result is Ok,
{
    if max_shares == 0 {
        return Err(NodeError::DataAvailability(DaError::InvalidChunkSize));
    }
    if max_shares > DEFAULT_MAX_DA_SHARES_PER_REQUEST {
        return Err(
            NodeError::DataAvailability(
                DaError::InvalidPayload(
                    crate::text::owned("DA share request exceeds maximum share count"),
                ),
            ),
        );
    }
    Ok(())
}

/// The share indices `start..end` that a request for `max_shares` shares
/// from `start_index` is served, for a manifest of `share_count` shares.
pub fn da_share_request_range(start_index: u32, max_shares: u32, share_count: u32) -> (range: (
    u32,
    u32,
))
    ensures
        range.0 == start_index,
        range.1 == vstd::math::min(
            vstd::math::min(start_index + max_shares, u32::MAX as int),
            share_count as int,
        ),
{
    let end = start_index.saturating_add(max_shares);
    let end = if end < share_count {
        end
    } else {
        share_count
    };
    (start_index, end)
}

/// Which stored blocks make up a page of blocks from `start_height`.
pub struct BlockPageSelection {
    /// The positions, in storage order, of the blocks on the page.
    pub positions: Vec<usize>,
    /// The page size used: the requested one, capped.
    pub limit: usize,
    /// The highest stored height (zero when nothing is stored).
    pub highest_height: u64,
}

/// The greatest of `heights`, or zero when there are none.
pub open spec fn highest_of(heights: Seq<u64>) -> u64
    decreases heights.len(),
{
    if heights.len() == 0 {
        0
    } else {
        let rest = highest_of(heights.drop_last());
        if heights.last() > rest {
            heights.last()
        } else {
            rest
        }
    }
}

/// The positions of the heights that are at least `start_height`, in
/// order, and at most `limit` of them.
pub open spec fn page_positions(heights: Seq<u64>, start_height: u64, limit: nat) -> Seq<int>
    decreases heights.len(),
{
    if heights.len() == 0 {
        Seq::empty()
    } else {
        let rest = page_positions(heights.drop_last(), start_height, limit);
        if heights.last() >= start_height && rest.len() < limit {
            rest.push(heights.len() - 1)
        } else {
            rest
        }
    }
}

/// Picks the page of blocks that starts at `start_height` from the stored
/// blocks of heights `heights` (in storage order): at most
/// `min(limit, max_page_size)` of them, in storage order, each at least
/// `start_height`.
pub fn block_page_selection(
    heights: &Vec<u64>,
    start_height: u64,
    limit: usize,
    max_page_size: usize,
) -> (page: BlockPageSelection)
    ensures
        page.limit == vstd::math::min(limit as int, max_page_size as int),
        page.highest_height == highest_of(heights@),
        page.positions@.map_values(|p: usize| p as int) == page_positions(
            heights@,
            start_height,
            page.limit as nat,
        ),
{
    let effective_limit = if limit < max_page_size {
        limit
    } else {
        max_page_size
    };
    let mut positions: Vec<usize> = Vec::new();
    let mut highest: u64 = 0;
    let mut i: usize = 0;
    assert(heights@.take(0) =~= Seq::<u64>::empty());
    assert(positions@.map_values(|p: usize| p as int) =~= Seq::<int>::empty());
    while i < heights.len()
        invariant
            i <= heights@.len(),
            highest == highest_of(heights@.take(i as int)),
            positions@.map_values(|p: usize| p as int) == page_positions(
                heights@.take(i as int),
                start_height,
                effective_limit as nat,
            ),
            positions@.len() <= effective_limit,
        decreases heights@.len() - i,
    {
        let h = heights[i];
        assert(heights@.take(i + 1).drop_last() =~= heights@.take(i as int));
        assert(heights@.take(i + 1).last() == h);
        if h > highest {
            highest = h;
        }
        if h >= start_height && positions.len() < effective_limit {
            let ghost before = positions@;
            positions.push(i);
            assert(positions@.map_values(|p: usize| p as int) =~= before.map_values(
                |p: usize| p as int,
            ).push(i as int));
        }
        i = i + 1;
    }
    assert(heights@.take(i as int) =~= heights@);
    BlockPageSelection { positions, limit: effective_limit, highest_height: highest }
}

/// The kinds of RPC request whose serving time the node records.
#[derive(Clone, Copy, Debug, PartialEq, Eq, Structural)]
pub enum RpcRequestClass {
    ReceiptProof,
    AspectModuleProof,
    StorageProof,
    StorageNonInclusionProof,
    RegistryProof,
    RegistryNonInclusionProof,
    OutboxMessageProof,
    EventProof,
    Other,
}

/// Whether serving a request of class `class` is timed: every proof
/// request is.
pub fn records_proof_latency(class: RpcRequestClass) -> (timed: bool)
    ensures
        timed == (class != RpcRequestClass::Other),
{
    match class {
        RpcRequestClass::Other => false,
        _ => true,
    }
}

/// The node's RPC accounting: how many requests were answered with an
/// error, and how long the last proof request took.
#[derive(Clone, Copy, Debug, PartialEq, Eq, Structural)]
pub struct RpcServingCounters {
    pub rpc_error_count: u64,
    pub last_proof_serving_micros: Option<u64>,
}

impl RpcServingCounters {
    /// Nothing served yet.
    pub fn new() -> (counters: Self)
        ensures
            counters.rpc_error_count == 0,
            counters.last_proof_serving_micros is None,
    {
        RpcServingCounters { rpc_error_count: 0, last_proof_serving_micros: None }
    }

    /// Accounts for one answered request of class `class` that took
    /// `micros` microseconds and was answered with an error or not.
    pub fn record_response(&mut self, class: RpcRequestClass, micros: u128, answered_with_error: bool)
        ensures
            final(self).last_proof_serving_micros == if class != RpcRequestClass::Other {
                Some(
                    if micros == 0 {
                        1
                    } else if micros > u64::MAX {
                        u64::MAX
                    } else {
                        micros as u64
                    },
                )
            } else {
                old(self).last_proof_serving_micros
            },
            final(self).rpc_error_count == if answered_with_error {
                if old(self).rpc_error_count == u64::MAX {
                    u64::MAX
                } else {
                    (old(self).rpc_error_count + 1) as u64
                }
            } else {
                old(self).rpc_error_count
            },
    {
        if records_proof_latency(class) {
            self.last_proof_serving_micros = Some(elapsed_micros(micros));
        }
        if answered_with_error {
            self.rpc_error_count = self.rpc_error_count.saturating_add(1);
        }
    }
}


/// Refuses a snapshot chunk request for a snapshot root other than the one
/// stored.
pub fn check_snapshot_root(requested: &str, available: &str) -> (result: Result<(), NodeError>)
    ensures
        requested@ == available@ ==> result is Ok,
        requested@ != available@ ==> (result matches Err(
            NodeError::SnapshotRootNotFound { requested: r, available: a },
        ) && r@ == requested@ && a@ == available@),
{
    if str_eq(requested, available) {
        Ok(())
    } else {
        Err(
            NodeError::SnapshotRootNotFound {
                requested: crate::text::owned(requested),
                available: crate::text::owned(available),
            },
        )
    }
}

/// The chunks `from..to` of a snapshot of `chunk_count` chunks that a
/// request for `max_chunks` chunks from `start_index` is served.
pub fn snapshot_chunk_window(start_index: u32, max_chunks: u32, chunk_count: usize) -> (window: (
    usize,
    usize,
))
    ensures
        window.0 == vstd::math::min(start_index as int, chunk_count as int),
        window.1 == vstd::math::min(start_index + max_chunks, chunk_count as int),
        window.0 <= window.1,
{
    let start = start_index as u64;
    let end = start + max_chunks as u64;
    let count = chunk_count as u64;
    let from = if start < count {
        start_index as usize
    } else {
        chunk_count
    };
    let to = if end < count {
        end as usize
    } else {
        chunk_count
    };
    (from, to)
}

/// How many of the latest block's receipts report a failure, and how many
/// receipts it has; `committed` holds, for each receipt, whether its
/// transaction was committed.
pub fn receipt_failure_counts(committed: &[bool]) -> (counts: (usize, usize))
    ensures
        counts.0 == committed@.filter(|c: bool| !c).len(),
        counts.1 == committed@.len(),
{
    let mut failures: usize = 0;
    let mut i: usize = 0;
    assert(committed@.take(0).filter(|c: bool| !c) =~= Seq::<bool>::empty());
    while i < committed.len()
        invariant
            i <= committed@.len(),
            failures == committed@.take(i as int).filter(|c: bool| !c).len(),
            failures <= i,
        decreases committed@.len() - i,
    {
        assert(committed@.take(i + 1).drop_last() =~= committed@.take(i as int));
        proof {
            reveal(Seq::filter);
        }
        if !committed[i] {
            failures = failures + 1;
        }
        i = i + 1;
    }
    assert(committed@.take(i as int) =~= committed@);
    (failures, committed.len())
}

/// Which of a manifest's shares are stored: their number (saturating) and
/// the indices of the missing ones, in order; `stored` holds, for each
/// share index, whether the share is stored.
pub fn share_presence(stored: &Vec<bool>) -> (presence: (u32, Vec<u32>))
    requires
        stored@.len() <= u32::MAX,
    ensures
        presence.0 == vstd::math::min(stored@.filter(|s: bool| s).len() as int, u32::MAX as int),
        presence.1@ == Seq::new(stored@.len(), |i: int| i as u32).filter(|i: u32| !stored@[i as int]),
{
    let ghost all = Seq::new(stored@.len(), |i: int| i as u32);
    let ghost missing_of = |i: u32| !stored@[i as int];
    let mut count: u32 = 0;
    let mut missing: Vec<u32> = Vec::new();
    let mut i: usize = 0;
    assert(stored@.take(0).filter(|s: bool| s) =~= Seq::<bool>::empty());
    assert(all.take(0).filter(missing_of) =~= Seq::<u32>::empty());
    while i < stored.len()
        invariant
            stored@.len() <= u32::MAX,
            all == Seq::new(stored@.len(), |i: int| i as u32),
            missing_of == (|i: u32| !stored@[i as int]),
            i <= stored@.len(),
            count == vstd::math::min(stored@.take(i as int).filter(|s: bool| s).len() as int, u32::MAX as int),
            missing@ == all.take(i as int).filter(missing_of),
        decreases stored@.len() - i,
    {
        assert(stored@.take(i + 1).drop_last() =~= stored@.take(i as int));
        assert(all.take(i + 1).drop_last() =~= all.take(i as int));
        assert(all.take(i + 1).last() == i as u32);
        proof {
            reveal(Seq::filter);
        }
        if stored[i] {
            count = count.saturating_add(1);
        } else {
            missing.push(i as u32);
        }
        i = i + 1;
    }
    assert(stored@.take(i as int) =~= stored@);
    assert(all.take(i as int) =~= all);
    (count, missing)
}

/// Whether the coding of a manifest can be checked from local shares.
#[derive(Debug)]
pub enum CodingCheck {
    /// The manifest is not stored.
    ManifestMissing,
    /// Too few data shares are stored; the detail says how many.
    TooFewDataShares(String),
    /// All data shares are stored: check the coding.
    Evaluate,
}

/// Whether the coding of a manifest that expects `expected` data shares
/// can be checked when `available` of them are stored.
pub fn coding_check(manifest_available: bool, expected: u32, available: u32) -> (check: CodingCheck)
    ensures
        !manifest_available ==> check is ManifestMissing,
        manifest_available && available < expected ==> (check matches CodingCheck::TooFewDataShares(
            d,
        ) && d@ == decimal_spec(available as nat) + " of "@ + decimal_spec(expected as nat)
            + " data shares available; cannot evaluate coding correctness"@),
        manifest_available && available >= expected ==> check is Evaluate,
{
    if !manifest_available {
        return CodingCheck::ManifestMissing;
    }
    if available < expected {
        let mut detail = String::new();
        push_decimal(&mut detail, available as u64);
        detail.append(" of ");
        push_decimal(&mut detail, expected as u64);
        detail.append(" data shares available; cannot evaluate coding correctness");
        proof {
            reveal_strlit("");
            assert(""@ + decimal_spec(available as nat) == decimal_spec(available as nat));
        }
        return CodingCheck::TooFewDataShares(detail);
    }
    CodingCheck::Evaluate
}

/// What came of building a coding fraud proof from the stored data shares.
#[derive(Debug)]
pub enum FraudProofOutcome {
    /// A proof was built: the manifest does not commit a valid encoding.
    ProofBuilt,
    /// No proof exists: the data shares encode to what the manifest commits.
    ValidEncoding,
    /// The proof could not be evaluated; the text says why.
    NotEvaluated(String),
}

/// Whether a coding fault was detected, and the detail the report gives,
/// for the outcome of building a coding fraud proof.
pub fn coding_fraud_verdict(outcome: &FraudProofOutcome) -> (verdict: (bool, String))
    ensures
        outcome is ProofBuilt ==> verdict.0 && verdict.1@
            == "manifest does not commit a valid encoding of its payload"@,
        outcome is ValidEncoding ==> !verdict.0 && verdict.1@
            == "manifest commits a valid encoding of its payload"@,
        outcome matches FraudProofOutcome::NotEvaluated(reason) ==> !verdict.0 && verdict.1@
            == "could not evaluate coding correctness from local shares: "@ + reason@,
{
    match outcome {
        FraudProofOutcome::ProofBuilt => (
            true,
            "manifest does not commit a valid encoding of its payload".to_owned(),
        ),
        FraudProofOutcome::ValidEncoding => (
            false,
            "manifest commits a valid encoding of its payload".to_owned(),
        ),
        FraudProofOutcome::NotEvaluated(reason) => (
            false,
            concat_str("could not evaluate coding correctness from local shares: ", reason.as_str()),
        ),
    }
}

/// The `(height, hash)` pairs as plain values.
pub open spec fn block_refs_view(blocks: Seq<(u64, String)>) -> Seq<(u64, Seq<char>)> {
    blocks.map_values(|b: (u64, String)| (b.0, b.1@))
}

/// The stored block of greatest height (the last such one on a tie).
pub open spec fn latest_block_spec(blocks: Seq<(u64, Seq<char>)>) -> Option<(u64, Seq<char>)>
    decreases blocks.len(),
{
    if blocks.len() == 0 {
        None
    } else {
        let last = blocks.last();
        match latest_block_spec(blocks.drop_last()) {
            Some(best) => if last.0 >= best.0 {
                Some(last)
            } else {
                Some(best)
            },
            None => Some(last),
        }
    }
}

/// The hash a checkpoint built from the current state names as its
/// predecessor: that of the stored block of greatest height, or the global
/// state root when no block is stored; `blocks` holds each stored block's
/// height and hash.
pub fn checkpoint_previous_block_hash(blocks: &Vec<(u64, String)>, global_state_root: &str) -> (hash:
    String)
    ensures
        hash@ == match latest_block_spec(block_refs_view(blocks@)) {
            Some(best) => best.1,
            None => global_state_root@,
        },
{
    let mut best: Option<usize> = None;
    let mut i: usize = 0;
    let ghost view = block_refs_view(blocks@);
    assert(view.take(0) =~= Seq::<(u64, Seq<char>)>::empty());
    while i < blocks.len()
        invariant
            i <= blocks@.len(),
            view == block_refs_view(blocks@),
            match best {
                Some(b) => b < i && latest_block_spec(view.take(i as int)) == Some(view[b as int]),
                None => i == 0 && latest_block_spec(view.take(i as int)) is None,
            },
        decreases blocks@.len() - i,
    {
        assert(view.take(i + 1).drop_last() =~= view.take(i as int));
        assert(view.take(i + 1).last() == view[i as int]);
        best = match best {
            Some(b) => if blocks[i].0 >= blocks[b].0 {
                Some(i)
            } else {
                Some(b)
            },
            None => Some(i),
        };
        i = i + 1;
    }
    assert(view.take(i as int) =~= view);
    match best {
        Some(b) => blocks[b].1.clone(),
        None => crate::text::owned(global_state_root),
    }
}

} // verus!
