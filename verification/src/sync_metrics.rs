//! Client-side counters of snapshot state sync and data-availability share
//! sync, and the score kept for each share-serving peer.
use vstd::prelude::*;

verus! {

/// Counters of one snapshot state-sync client run.
#[derive(Clone, Debug, PartialEq, Eq)]
pub struct SnapshotSyncClientMetrics {
    pub retry_attempts: u32,
    pub stream_failures: u32,
    pub requests_sent: u32,
    pub manifests_received: u32,
    pub chunks_received: u32,
    pub resume_requests: u32,
    pub metadata_roots_verified: bool,
    pub required_metadata_roots_root: Option<String>,
}

impl SnapshotSyncClientMetrics {
    /// All counters zero, nothing verified.
    pub open spec fn zero() -> Self {
        SnapshotSyncClientMetrics {
            retry_attempts: 0,
            stream_failures: 0,
            requests_sent: 0,
            manifests_received: 0,
            chunks_received: 0,
            resume_requests: 0,
            metadata_roots_verified: false,
            required_metadata_roots_root: None,
        }
    }

    /// All counters zero, nothing verified.
    pub fn default() -> (metrics: Self)
        ensures
            metrics == Self::zero(),
    {
        SnapshotSyncClientMetrics {
            retry_attempts: 0,
            stream_failures: 0,
            requests_sent: 0,
            manifests_received: 0,
            chunks_received: 0,
            resume_requests: 0,
            metadata_roots_verified: false,
            required_metadata_roots_root: None,
        }
    }

    /// Adds the traffic counters of one attempt to these counters. The retry
    /// and stream-failure counters stay as they are; the attempt's verified
    /// flag is or-ed in, and its required-roots root, if it has one,
    /// replaces this one.
    pub fn include_attempt(&mut self, attempt: SnapshotSyncClientMetrics)
        requires
            old(self).requests_sent + attempt.requests_sent <= u32::MAX,
            old(self).manifests_received + attempt.manifests_received <= u32::MAX,
            old(self).chunks_received + attempt.chunks_received <= u32::MAX,
            old(self).resume_requests + attempt.resume_requests <= u32::MAX,
        ensures
            final(self).retry_attempts == old(self).retry_attempts,
            final(self).stream_failures == old(self).stream_failures,
            final(self).requests_sent == old(self).requests_sent + attempt.requests_sent,
            final(self).manifests_received == old(self).manifests_received
                + attempt.manifests_received,
            final(self).chunks_received == old(self).chunks_received + attempt.chunks_received,
            final(self).resume_requests == old(self).resume_requests + attempt.resume_requests,
            final(self).metadata_roots_verified == (old(self).metadata_roots_verified
                || attempt.metadata_roots_verified),
            final(self).required_metadata_roots_root == if attempt.required_metadata_roots_root is Some {
                attempt.required_metadata_roots_root
            } else {
                old(self).required_metadata_roots_root
            },
    {
        self.requests_sent = self.requests_sent + attempt.requests_sent;
        self.manifests_received = self.manifests_received + attempt.manifests_received;
        self.chunks_received = self.chunks_received + attempt.chunks_received;
        self.resume_requests = self.resume_requests + attempt.resume_requests;
        self.metadata_roots_verified = self.metadata_roots_verified
            || attempt.metadata_roots_verified;
        if attempt.required_metadata_roots_root.is_some() {
            self.required_metadata_roots_root = attempt.required_metadata_roots_root;
        }
    }
}

/// How many times a snapshot fetch is attempted.
#[derive(Clone, Copy, Debug, PartialEq, Eq, Structural)]
pub struct SnapshotSyncRetryPolicy {
    pub max_attempts: u32,
}

impl SnapshotSyncRetryPolicy {
    /// Three attempts.
    pub fn default() -> (policy: Self)
        ensures
            policy.max_attempts == 3,
    {
        SnapshotSyncRetryPolicy { max_attempts: 3 }
    }
}

/// The record kept of one data-availability share-serving peer.
#[derive(Clone, Copy, Debug, PartialEq, Eq, Structural)]
pub struct DaShareSyncPeerScore {
    pub peer_index: usize,
    pub score: i64,
    pub valid_responses: u32,
    pub invalid_responses: u32,
    pub failures: u32,
}

impl DaShareSyncPeerScore {
    /// A fresh record for peer `peer_index`.
    pub open spec fn fresh(peer_index: usize) -> Self {
        DaShareSyncPeerScore {
            peer_index,
            score: 0,
            valid_responses: 0,
            invalid_responses: 0,
            failures: 0,
        }
    }

    /// A record for peer zero with all counters zero.
    pub fn default() -> (score: Self)
        ensures
            score == Self::fresh(0),
    {
        DaShareSyncPeerScore {
            peer_index: 0,
            score: 0,
            valid_responses: 0,
            invalid_responses: 0,
            failures: 0,
        }
    }
}

/// Counters of one data-availability share sync run.
#[derive(Clone, Debug, PartialEq, Eq)]
pub struct DaShareSyncClientMetrics {
    pub peer_attempts: u32,
    pub peer_failures: u32,
    pub requests_sent: u32,
    pub manifests_received: u32,
    pub shares_received: u32,
    pub duplicate_shares: u32,
    pub invalid_responses: u32,
    pub payload_reconstructable: bool,
    pub peer_scores: Vec<DaShareSyncPeerScore>,
}

impl DaShareSyncClientMetrics {
    /// All counters zero and no peer records.
    pub open spec fn is_zero(&self) -> bool {
        &&& self.peer_attempts == 0
        &&& self.peer_failures == 0
        &&& self.requests_sent == 0
        &&& self.manifests_received == 0
        &&& self.shares_received == 0
        &&& self.duplicate_shares == 0
        &&& self.invalid_responses == 0
        &&& !self.payload_reconstructable
        &&& self.peer_scores@.len() == 0
    }

    /// All counters zero and no peer records.
    pub fn default() -> (metrics: Self)
        ensures
            metrics.is_zero(),
    {
        DaShareSyncClientMetrics {
            peer_attempts: 0,
            peer_failures: 0,
            requests_sent: 0,
            manifests_received: 0,
            shares_received: 0,
            duplicate_shares: 0,
            invalid_responses: 0,
            payload_reconstructable: false,
            peer_scores: Vec::new(),
        }
    }

    /// The counters other than the peer records are those of `other`.
    pub open spec fn same_counters(&self, other: &Self) -> bool {
        &&& self.peer_attempts == other.peer_attempts
        &&& self.peer_failures == other.peer_failures
        &&& self.requests_sent == other.requests_sent
        &&& self.manifests_received == other.manifests_received
        &&& self.shares_received == other.shares_received
        &&& self.duplicate_shares == other.duplicate_shares
        &&& self.invalid_responses == other.invalid_responses
        &&& self.payload_reconstructable == other.payload_reconstructable
    }
}

/// `x + y`, saturated to the `i64` range.
pub open spec fn sat_add_i64(x: i64, y: i64) -> i64 {
    if x + y > i64::MAX {
        i64::MAX
    } else if x + y < i64::MIN {
        i64::MIN
    } else {
        (x + y) as i64
    }
}

/// `x + 1`, saturated at `u32::MAX`.
pub open spec fn sat_inc_u32(x: u32) -> u32 {
    if x == u32::MAX {
        x
    } else {
        (x + 1) as u32
    }
}

fn saturating_add_i64(x: i64, y: i64) -> (r: i64)
    ensures
        r == sat_add_i64(x, y),
{
    if y > 0 && x > i64::MAX - y {
        i64::MAX
    } else if y < 0 && x < i64::MIN - y {
        i64::MIN
    } else {
        x + y
    }
}

/// Position of the first record of `peer` in `scores`, or `scores.len()`.
pub open spec fn peer_position(scores: Seq<DaShareSyncPeerScore>, peer: usize) -> int
    decreases scores.len(),
{
    if scores.len() == 0 {
        0
    } else if scores[0].peer_index == peer {
        0
    } else {
        1 + peer_position(scores.drop_first(), peer)
    }
}

proof fn lemma_peer_position(scores: Seq<DaShareSyncPeerScore>, peer: usize, r: int)
    requires
        0 <= r <= scores.len(),
        forall|j: int| 0 <= j < r ==> scores[j].peer_index != peer,
        r == scores.len() || scores[r].peer_index == peer,
    ensures
        peer_position(scores, peer) == r,
    decreases scores.len(),
{
    if scores.len() > 0 && scores[0].peer_index != peer {
        assert forall|j: int| 0 <= j < r - 1 implies scores.drop_first()[j].peer_index != peer by {
            assert(scores.drop_first()[j] == scores[j + 1]);
        }
        if r < scores.len() {
            assert(scores.drop_first()[r - 1] == scores[r]);
        }
        lemma_peer_position(scores.drop_first(), peer, r - 1);
    }
}

/// The records are for peers `0, 1, 2, ...`, one each, in that order.
pub open spec fn peers_in_order(scores: Seq<DaShareSyncPeerScore>) -> bool {
    forall|i: int| 0 <= i < scores.len() ==> #[trigger] scores[i].peer_index == i
}

/// With the records in order, a peer's record is at its own index.
pub proof fn lemma_in_order_position(scores: Seq<DaShareSyncPeerScore>, peer: usize)
    requires
        peers_in_order(scores),
    ensures
        peer_position(scores, peer) == if peer < scores.len() {
            peer as int
        } else {
            scores.len() as int
        },
{
    if peer < scores.len() {
        assert(scores[peer as int].peer_index == peer);
        lemma_peer_position(scores, peer, peer as int);
    } else {
        assert forall|j: int| 0 <= j < scores.len() implies scores[j].peer_index != peer by {
            assert(scores[j].peer_index == j);
        }
        lemma_peer_position(scores, peer, scores.len() as int);
    }
}

/// Opening the record of the next peer in order appends a fresh record.
pub proof fn lemma_in_order_next_peer(scores: Seq<DaShareSyncPeerScore>, peer: usize)
    requires
        peers_in_order(scores),
        peer == scores.len(),
    ensures
        with_peer(scores, peer) == scores.push(DaShareSyncPeerScore::fresh(peer)),
        peers_in_order(scores.push(DaShareSyncPeerScore::fresh(peer))),
{
    lemma_in_order_position(scores, peer);
    let w = scores.push(DaShareSyncPeerScore::fresh(peer));
    assert forall|i: int| 0 <= i < w.len() implies #[trigger] w[i].peer_index == i by {
        if i < scores.len() {
            assert(w[i] == scores[i]);
        }
    }
}

/// Changing the record of a peer that has one, by a change that keeps the
/// record's peer, changes that record in place and keeps the order.
pub proof fn lemma_in_order_update(
    scores: Seq<DaShareSyncPeerScore>,
    peer: usize,
    change: spec_fn(DaShareSyncPeerScore) -> DaShareSyncPeerScore,
)
    requires
        peers_in_order(scores),
        peer < scores.len(),
        forall|s: DaShareSyncPeerScore| #[trigger] change(s).peer_index == s.peer_index,
    ensures
        update_peer(scores, peer, change) == scores.update(peer as int, change(scores[peer as int])),
        peers_in_order(scores.update(peer as int, change(scores[peer as int]))),
{
    lemma_in_order_position(scores, peer);
    let u = scores.update(peer as int, change(scores[peer as int]));
    assert(change(scores[peer as int]).peer_index == scores[peer as int].peer_index);
    assert forall|i: int| 0 <= i < u.len() implies #[trigger] u[i].peer_index == i by {
        assert(scores[i].peer_index == i);
    }
}

/// The records with one for `peer` appended if it had none.
pub open spec fn with_peer(scores: Seq<DaShareSyncPeerScore>, peer: usize) -> Seq<
    DaShareSyncPeerScore,
> {
    if peer_position(scores, peer) < scores.len() {
        scores
    } else {
        scores.push(DaShareSyncPeerScore::fresh(peer))
    }
}

/// The records after `change` is applied to `peer`'s record (created first
/// if missing).
pub open spec fn update_peer(
    scores: Seq<DaShareSyncPeerScore>,
    peer: usize,
    change: spec_fn(DaShareSyncPeerScore) -> DaShareSyncPeerScore,
) -> Seq<DaShareSyncPeerScore> {
    let w = with_peer(scores, peer);
    let p = peer_position(w, peer);
    w.update(p, change(w[p]))
}

/// A valid response: score up by one, valid responses up by one.
pub open spec fn valid_change(s: DaShareSyncPeerScore) -> DaShareSyncPeerScore {
    DaShareSyncPeerScore {
        score: sat_add_i64(s.score, 1i64),
        valid_responses: sat_inc_u32(s.valid_responses),
        ..s
    }
}

/// An invalid response: score down by one, invalid responses up by one.
pub open spec fn invalid_change(s: DaShareSyncPeerScore) -> DaShareSyncPeerScore {
    DaShareSyncPeerScore {
        score: sat_add_i64(s.score, -1i64),
        invalid_responses: sat_inc_u32(s.invalid_responses),
        ..s
    }
}

/// A failure: score down by one, failures up by one.
pub open spec fn failure_change(s: DaShareSyncPeerScore) -> DaShareSyncPeerScore {
    DaShareSyncPeerScore {
        score: sat_add_i64(s.score, -1i64),
        failures: sat_inc_u32(s.failures),
        ..s
    }
}

/// Makes sure `peer` has a record and returns its position.
pub fn da_peer_score_position(metrics: &mut DaShareSyncClientMetrics, peer_index: usize) -> (pos:
    usize)
    ensures
        final(metrics).same_counters(old(metrics)),
        final(metrics).peer_scores@ == with_peer(old(metrics).peer_scores@, peer_index),
        pos as int == peer_position(final(metrics).peer_scores@, peer_index),
        pos < final(metrics).peer_scores@.len(),
{
    let ghost old_scores = metrics.peer_scores@;
    let mut i: usize = 0;
    while i < metrics.peer_scores.len()
        invariant
            metrics.peer_scores@ == old_scores,
            i <= old_scores.len(),
            forall|j: int| 0 <= j < i ==> old_scores[j].peer_index != peer_index,
        decreases old_scores.len() - i,
    {
        if metrics.peer_scores[i].peer_index == peer_index {
            proof {
                lemma_peer_position(old_scores, peer_index, i as int);
            }
            return i;
        }
        i = i + 1;
    }
    proof {
        lemma_peer_position(old_scores, peer_index, old_scores.len() as int);
    }
    metrics.peer_scores.push(
        DaShareSyncPeerScore {
            peer_index,
            score: 0,
            valid_responses: 0,
            invalid_responses: 0,
            failures: 0,
        },
    );
    let ghost w = metrics.peer_scores@;
    proof {
        assert forall|j: int| 0 <= j < old_scores.len() implies w[j].peer_index != peer_index by {
            assert(w[j] == old_scores[j]);
        }
        lemma_peer_position(w, peer_index, old_scores.len() as int);
    }
    i
}

/// Records a valid share response from peer `peer_index`.
pub fn record_da_peer_valid_response(metrics: &mut DaShareSyncClientMetrics, peer_index: usize)
    ensures
        final(metrics).same_counters(old(metrics)),
        final(metrics).peer_scores@ == update_peer(
            old(metrics).peer_scores@,
            peer_index,
            |s: DaShareSyncPeerScore| valid_change(s),
        ),
{
    let pos = da_peer_score_position(metrics, peer_index);
    let mut entry = metrics.peer_scores[pos];
    entry.score = saturating_add_i64(entry.score, 1);
    entry.valid_responses = entry.valid_responses.saturating_add(1);
    metrics.peer_scores.set(pos, entry);
}

/// Records an invalid share response from peer `peer_index`.
pub fn record_da_peer_invalid_response(metrics: &mut DaShareSyncClientMetrics, peer_index: usize)
    ensures
        final(metrics).same_counters(old(metrics)),
        final(metrics).peer_scores@ == update_peer(
            old(metrics).peer_scores@,
            peer_index,
            |s: DaShareSyncPeerScore| invalid_change(s),
        ),
{
    let pos = da_peer_score_position(metrics, peer_index);
    let mut entry = metrics.peer_scores[pos];
    entry.score = saturating_add_i64(entry.score, -1);
    entry.invalid_responses = entry.invalid_responses.saturating_add(1);
    metrics.peer_scores.set(pos, entry);
}

/// Records a connection or stream failure of peer `peer_index`.
pub fn record_da_peer_failure(metrics: &mut DaShareSyncClientMetrics, peer_index: usize)
    ensures
        final(metrics).same_counters(old(metrics)),
        final(metrics).peer_scores@ == update_peer(
            old(metrics).peer_scores@,
            peer_index,
            |s: DaShareSyncPeerScore| failure_change(s),
        ),
{
    let pos = da_peer_score_position(metrics, peer_index);
    let mut entry = metrics.peer_scores[pos];
    entry.score = saturating_add_i64(entry.score, -1);
    entry.failures = entry.failures.saturating_add(1);
    metrics.peer_scores.set(pos, entry);
}

} // verus!
