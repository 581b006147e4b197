//! The decisions of the state-sync clients, apart from their network I/O:
//! retrying a snapshot fetch, paging through snapshot chunks, and collecting
//! data-availability shares from a list of peers.
use crate::rate_limit::DaError;
use crate::sync_metrics::{
    da_peer_score_position, failure_change, invalid_change, lemma_in_order_next_peer,
    lemma_in_order_update, peers_in_order, record_da_peer_failure, record_da_peer_invalid_response,
    record_da_peer_valid_response, sat_inc_u32, valid_change, DaShareSyncClientMetrics,
    DaShareSyncPeerScore, SnapshotSyncClientMetrics, SnapshotSyncRetryPolicy,
};
use vstd::prelude::*;

verus! {

/// Progress of a snapshot fetch that is retried up to a fixed number of
/// attempts.
pub struct SnapshotSyncRetry {
    pub max_attempts: u32,
    pub metrics: SnapshotSyncClientMetrics,
    pub last_error: String,
}

impl SnapshotSyncRetry {
    /// The counters stay consistent: failures never exceed attempts, and
    /// attempts never exceed the policy.
    pub open spec fn wf(&self) -> bool {
        &&& self.metrics.stream_failures <= self.metrics.retry_attempts
        &&& self.metrics.retry_attempts <= self.max_attempts
    }

    /// A fetch under `policy`, before its first attempt.
    pub fn new(policy: SnapshotSyncRetryPolicy) -> (retry: Self)
        ensures
            retry.wf(),
            retry.max_attempts == policy.max_attempts,
            retry.metrics == SnapshotSyncClientMetrics::zero(),
            retry.last_error@ == "no attempts configured"@,
    {
        SnapshotSyncRetry {
            max_attempts: policy.max_attempts,
            metrics: SnapshotSyncClientMetrics::default(),
            last_error: "no attempts configured".to_owned(),
        }
    }

    /// Starts the next attempt if the policy allows one.
    pub fn begin_attempt(&mut self) -> (started: bool)
        requires
            old(self).wf(),
        ensures
            final(self).wf(),
            final(self).max_attempts == old(self).max_attempts,
            final(self).last_error == old(self).last_error,
            started == (old(self).metrics.retry_attempts < old(self).max_attempts),
            started ==> final(self).metrics == (SnapshotSyncClientMetrics {
                retry_attempts: (old(self).metrics.retry_attempts + 1) as u32,
                ..old(self).metrics
            }),
            !started ==> final(self).metrics == old(self).metrics,
    {
        if self.metrics.retry_attempts < self.max_attempts {
            self.metrics.retry_attempts = self.metrics.retry_attempts + 1;
            true
        } else {
            false
        }
    }

    /// The stream for the current attempt could not be opened.
    pub fn connect_failed(&mut self, error: String)
        requires
            old(self).wf(),
            old(self).metrics.stream_failures < old(self).metrics.retry_attempts,
        ensures
            final(self).wf(),
            final(self).max_attempts == old(self).max_attempts,
            final(self).metrics == (SnapshotSyncClientMetrics {
                stream_failures: (old(self).metrics.stream_failures + 1) as u32,
                ..old(self).metrics
            }),
            final(self).last_error == error,
    {
        self.metrics.stream_failures = self.metrics.stream_failures + 1;
        self.last_error = error;
    }

    /// The current attempt failed on the network. Returns whether another
    /// attempt follows; on the last attempt the failure is final and nothing
    /// is recorded.
    pub fn network_failure(&mut self, error: String) -> (retry: bool)
        requires
            old(self).wf(),
            old(self).metrics.stream_failures < old(self).metrics.retry_attempts,
        ensures
            final(self).wf(),
            final(self).max_attempts == old(self).max_attempts,
            retry == (old(self).metrics.retry_attempts < old(self).max_attempts),
            retry ==> final(self).metrics == (SnapshotSyncClientMetrics {
                stream_failures: (old(self).metrics.stream_failures + 1) as u32,
                ..old(self).metrics
            }) && final(self).last_error == error,
            !retry ==> final(self).metrics == old(self).metrics && final(self).last_error
                == old(self).last_error,
    {
        if self.metrics.retry_attempts < self.max_attempts {
            self.metrics.stream_failures = self.metrics.stream_failures + 1;
            self.last_error = error;
            true
        } else {
            false
        }
    }

    /// The current attempt fetched the snapshot; folds its counters in.
    pub fn succeeded(&mut self, attempt: SnapshotSyncClientMetrics)
        requires
            old(self).metrics.requests_sent + attempt.requests_sent <= u32::MAX,
            old(self).metrics.manifests_received + attempt.manifests_received <= u32::MAX,
            old(self).metrics.chunks_received + attempt.chunks_received <= u32::MAX,
            old(self).metrics.resume_requests + attempt.resume_requests <= u32::MAX,
        ensures
            final(self).max_attempts == old(self).max_attempts,
            final(self).last_error == old(self).last_error,
            final(self).metrics.retry_attempts == old(self).metrics.retry_attempts,
            final(self).metrics.stream_failures == old(self).metrics.stream_failures,
            final(self).metrics.requests_sent == old(self).metrics.requests_sent
                + attempt.requests_sent,
            final(self).metrics.manifests_received == old(self).metrics.manifests_received
                + attempt.manifests_received,
            final(self).metrics.chunks_received == old(self).metrics.chunks_received
                + attempt.chunks_received,
            final(self).metrics.resume_requests == old(self).metrics.resume_requests
                + attempt.resume_requests,
            final(self).metrics.metadata_roots_verified == (
            old(self).metrics.metadata_roots_verified || attempt.metadata_roots_verified),
            final(self).metrics.required_metadata_roots_root
                == if attempt.required_metadata_roots_root is Some {
                attempt.required_metadata_roots_root
            } else {
                old(self).metrics.required_metadata_roots_root
            },
    {
        self.metrics.include_attempt(attempt);
    }
}

/// Why a snapshot chunk fetch cannot start or go on.
#[derive(Clone, Copy, Debug, PartialEq, Eq, Structural)]
pub enum ChunkFetchError {
    /// Zero chunks per request were asked for.
    InvalidChunkSize,
    /// A later manifest differs from the first one.
    ManifestMismatch,
}

/// Progress of fetching one snapshot's chunks over a stream, a batch of at
/// most `max_chunks_per_request` chunks per request.
pub struct SnapshotChunkFetch {
    pub max_chunks_per_request: u32,
    pub start_index: u32,
    pub chunk_count: Option<u32>,
    pub batch_expected: u32,
    pub metrics: SnapshotSyncClientMetrics,
}

/// The number of chunks a batch at `start` expects: what remains of
/// `chunk_count`, at most `max`.
pub open spec fn batch_size(chunk_count: u32, start: u32, max: u32) -> u32 {
    let remaining = if chunk_count >= start {
        chunk_count - start
    } else {
        0
    };
    if remaining < max {
        remaining as u32
    } else {
        max
    }
}

impl SnapshotChunkFetch {
    /// The chunks received so far are exactly those before the current
    /// batch's end, and no batch reaches past the manifest's chunk count.
    /// Each request is answered by one manifest before the next is sent, the
    /// first request starts at chunk zero and every later one resumes, and
    /// the chunk count is known only once a manifest has arrived. While the
    /// fetch is still at chunk zero, its batch is the first batch of the
    /// manifest.
    pub open spec fn wf(&self) -> bool {
        &&& self.max_chunks_per_request > 0
        &&& self.metrics.manifests_received <= self.metrics.requests_sent
        &&& self.metrics.requests_sent <= self.metrics.manifests_received + 1
        &&& (self.metrics.requests_sent == 0 ==> self.metrics.resume_requests == 0)
        &&& (self.metrics.requests_sent > 0 ==> self.metrics.resume_requests + 1
            == self.metrics.requests_sent)
        &&& (self.chunk_count is Some ==> self.metrics.manifests_received >= 1)
        &&& (self.start_index == 0 ==> match self.chunk_count {
            Some(count) => self.batch_expected == batch_size(
                count,
                0,
                self.max_chunks_per_request,
            ),
            None => true,
        })
        &&& self.metrics.chunks_received >= self.start_index
        &&& self.metrics.chunks_received <= self.start_index + self.batch_expected
        &&& match self.chunk_count {
            Some(count) => self.start_index + self.batch_expected <= count,
            None => self.start_index == 0 && self.batch_expected == 0
                && self.metrics.chunks_received == 0,
        }
        &&& self.metrics.retry_attempts == 0
        &&& self.metrics.stream_failures == 0
    }

    /// A fetch of at most `max_chunks_per_request` chunks per request; fails
    /// when that number is zero.
    pub fn new(max_chunks_per_request: u32) -> (result: Result<Self, ChunkFetchError>)
        ensures
            max_chunks_per_request == 0 ==> result == Err::<Self, ChunkFetchError>(
                ChunkFetchError::InvalidChunkSize,
            ),
            max_chunks_per_request > 0 ==> (result matches Ok(fetch) && fetch.wf()
                && fetch.start_index == 0 && fetch.chunk_count is None
                && fetch.max_chunks_per_request == max_chunks_per_request && fetch.metrics
                == SnapshotSyncClientMetrics::zero()),
    {
        if max_chunks_per_request == 0 {
            return Err(ChunkFetchError::InvalidChunkSize);
        }
        Ok(
            SnapshotChunkFetch {
                max_chunks_per_request,
                start_index: 0,
                chunk_count: None,
                batch_expected: 0,
                metrics: SnapshotSyncClientMetrics::default(),
            },
        )
    }

    /// The fetch may send its next request: it has sent none, or the last
    /// batch is finished (every chunk of it arrived and the next request
    /// starts after it) and the manifest's chunks are not all here yet.
    pub open spec fn ready_for_request(&self) -> bool {
        &&& self.metrics.manifests_received == self.metrics.requests_sent
        &&& (self.metrics.requests_sent == 0 || (self.chunk_count matches Some(count)
            && self.batch_expected == 0 && self.metrics.chunks_received == self.start_index
            && self.metrics.chunks_received < count))
    }

    /// Counts the next chunk request and returns the index it starts at. A
    /// request that does not start at zero resumes the fetch.
    pub fn begin_request(&mut self) -> (start_index: u32)
        requires
            old(self).wf(),
            old(self).ready_for_request(),
            old(self).metrics.requests_sent < u32::MAX,
        ensures
            final(self).wf(),
            start_index == old(self).start_index,
            final(self).start_index == old(self).start_index,
            final(self).chunk_count == old(self).chunk_count,
            final(self).batch_expected == old(self).batch_expected,
            final(self).max_chunks_per_request == old(self).max_chunks_per_request,
            final(self).metrics == (SnapshotSyncClientMetrics {
                requests_sent: (old(self).metrics.requests_sent + 1) as u32,
                resume_requests: if old(self).start_index > 0 {
                    (old(self).metrics.resume_requests + 1) as u32
                } else {
                    old(self).metrics.resume_requests
                },
                ..old(self).metrics
            }),
    {
        self.metrics.requests_sent = self.metrics.requests_sent + 1;
        if self.start_index > 0 {
            self.metrics.resume_requests = self.metrics.resume_requests + 1;
        }
        self.start_index
    }

    /// A manifest arrived for the current request. The first manifest fixes
    /// the chunk count; a later one must equal it (`same_as_first`). Returns
    /// the number of chunks the current batch expects.
    pub fn manifest_received(&mut self, chunk_count: u32, same_as_first: bool) -> (result: Result<
        u32,
        ChunkFetchError,
    >)
        requires
            old(self).wf(),
            old(self).metrics.chunks_received == old(self).start_index,
            old(self).metrics.manifests_received < old(self).metrics.requests_sent,
        ensures
            final(self).wf(),
            final(self).metrics == (SnapshotSyncClientMetrics {
                manifests_received: (old(self).metrics.manifests_received + 1) as u32,
                ..old(self).metrics
            }),
            final(self).start_index == old(self).start_index,
            final(self).max_chunks_per_request == old(self).max_chunks_per_request,
            old(self).chunk_count is Some && !same_as_first ==> result == Err::<u32, ChunkFetchError>(
                ChunkFetchError::ManifestMismatch,
            ),
            old(self).chunk_count is None ==> final(self).chunk_count == Some(chunk_count),
            old(self).chunk_count is Some ==> final(self).chunk_count == old(self).chunk_count,
            (old(self).chunk_count is None || same_as_first) ==> (result matches Ok(expected)
                && expected == batch_size(
                final(self).chunk_count->0,
                old(self).start_index,
                old(self).max_chunks_per_request,
            ) && final(self).batch_expected == expected),
    {
        self.metrics.manifests_received = self.metrics.manifests_received + 1;
        let count = match self.chunk_count {
            Some(known) => {
                if !same_as_first {
                    return Err(ChunkFetchError::ManifestMismatch);
                }
                known
            },
            None => {
                self.chunk_count = Some(chunk_count);
                chunk_count
            },
        };
        let remaining = if count >= self.start_index {
            count - self.start_index
        } else {
            0
        };
        let expected = if remaining < self.max_chunks_per_request {
            remaining
        } else {
            self.max_chunks_per_request
        };
        self.batch_expected = expected;
        Ok(expected)
    }

    /// A chunk of the current batch arrived.
    pub fn chunk_received(&mut self)
        requires
            old(self).wf(),
            old(self).metrics.chunks_received < old(self).start_index + old(self).batch_expected,
        ensures
            final(self).wf(),
            final(self).start_index == old(self).start_index,
            final(self).chunk_count == old(self).chunk_count,
            final(self).batch_expected == old(self).batch_expected,
            final(self).max_chunks_per_request == old(self).max_chunks_per_request,
            final(self).metrics == (SnapshotSyncClientMetrics {
                chunks_received: (old(self).metrics.chunks_received + 1) as u32,
                ..old(self).metrics
            }),
    {
        self.metrics.chunks_received = self.metrics.chunks_received + 1;
    }

    /// The current batch is complete. Returns whether every chunk of the
    /// manifest has arrived; otherwise the next request starts after this
    /// batch.
    pub fn finish_batch(&mut self) -> (complete: bool)
        requires
            old(self).wf(),
            old(self).chunk_count is Some,
            old(self).metrics.manifests_received == old(self).metrics.requests_sent,
            old(self).metrics.chunks_received == old(self).start_index + old(self).batch_expected,
        ensures
            final(self).wf(),
            complete == (old(self).metrics.chunks_received >= old(self).chunk_count->0),
            complete ==> final(self).metrics.chunks_received == old(self).chunk_count->0,
            complete ==> final(self).metrics.manifests_received == final(self).metrics.requests_sent
                && final(self).metrics.resume_requests + 1 == final(self).metrics.requests_sent,
            !complete ==> final(self).ready_for_request(),
            final(self).metrics == old(self).metrics,
            final(self).chunk_count == old(self).chunk_count,
            final(self).max_chunks_per_request == old(self).max_chunks_per_request,
            complete ==> final(self).start_index == old(self).start_index,
            !complete ==> final(self).start_index == old(self).start_index
                + old(self).batch_expected,
            !complete ==> final(self).batch_expected == 0,
            !complete ==> final(self).metrics.chunks_received == final(self).start_index,
    {
        let count = match self.chunk_count {
            Some(c) => c,
            None => 0,
        };
        if self.metrics.chunks_received >= count {
            return true;
        }
        self.start_index = self.start_index + self.batch_expected;
        self.batch_expected = 0;
        false
    }

    /// The collected chunk set was verified against the required metadata
    /// roots, whose root is `required_root`.
    pub fn verified(&mut self, required_root: String)
        ensures
            final(self).metrics == (SnapshotSyncClientMetrics {
                metadata_roots_verified: true,
                required_metadata_roots_root: Some(required_root),
                ..old(self).metrics
            }),
            final(self).start_index == old(self).start_index,
            final(self).chunk_count == old(self).chunk_count,
            final(self).batch_expected == old(self).batch_expected,
            final(self).max_chunks_per_request == old(self).max_chunks_per_request,
    {
        self.metrics.metadata_roots_verified = true;
        self.metrics.required_metadata_roots_root = Some(required_root);
    }
}

/// The most shares one data-availability share request may ask for.
pub const DEFAULT_MAX_DA_SHARES_PER_REQUEST: u32 = 128;

/// What a data-availability manifest commits to, as far as collecting its
/// shares is concerned.
#[derive(Clone, Copy, Debug, PartialEq, Eq, Structural)]
pub struct DaManifestSummary {
    pub encoded_share_count: u32,
    pub reconstruction_threshold: u32,
}

/// What became of one share a peer sent.
#[derive(Clone, Copy, Debug, PartialEq, Eq, Structural)]
pub enum ShareOutcome {
    /// The share failed verification against the manifest.
    Rejected,
    /// A share of an index not seen before; keep it.
    Stored,
    /// A verified share of an index already held.
    Duplicate,
}

/// The first index below `count`, from `i` on, that `held` lacks.
pub open spec fn first_missing_from(held: Set<u32>, i: int, count: int) -> Option<u32>
    decreases count - i,
{
    if i < 0 || i >= count {
        None
    } else if !held.contains(i as u32) {
        Some(i as u32)
    } else {
        first_missing_from(held, i + 1, count)
    }
}

/// Where the next share request starts: the first index the manifest
/// commits to that is not yet held, or zero when there is no manifest yet
/// or nothing is missing.
pub open spec fn request_start_spec(manifest: Option<DaManifestSummary>, held: Set<u32>) -> u32 {
    match manifest {
        Some(m) => match first_missing_from(held, 0, m.encoded_share_count as int) {
            Some(i) => i,
            None => 0,
        },
        None => 0,
    }
}

/// Progress of collecting a manifest's shares from `peer_count` peers, each
/// asked for at most `max_shares_per_request` shares.
pub struct DaShareFetch {
    pub peer_count: usize,
    pub max_shares_per_request: u32,
    pub manifest: Option<DaManifestSummary>,
    pub share_indices: Vec<u32>,
    pub metrics: DaShareSyncClientMetrics,
}

/// The share count as the counters hold it, saturated at `u32::MAX`.
pub open spec fn sat_count(n: nat) -> u32 {
    if n > u32::MAX {
        u32::MAX
    } else {
        n as u32
    }
}

impl DaShareFetch {
    /// The shares held are distinct, and the share counter counts them. The
    /// peers begun are `0, 1, 2, ...` in order, each once and none beyond
    /// `peer_count`: there is one score record per peer begun, in that order,
    /// and the attempt counter counts them. The payload is marked
    /// reconstructable only while the manifest's threshold of distinct
    /// shares is held.
    pub open spec fn wf(&self) -> bool {
        &&& self.share_indices@.no_duplicates()
        &&& self.metrics.shares_received == sat_count(self.share_indices@.len())
        &&& peers_in_order(self.metrics.peer_scores@)
        &&& self.metrics.peer_scores@.len() <= self.peer_count
        &&& self.metrics.peer_attempts == sat_count(self.metrics.peer_scores@.len())
        &&& self.metrics.payload_reconstructable ==> (self.manifest matches Some(m)
            && self.share_indices@.len() >= m.reconstruction_threshold)
    }

    /// The number of peers begun so far.
    pub open spec fn peers_begun(&self) -> nat {
        self.metrics.peer_scores@.len()
    }

    /// An attempt on `peer` has begun, so it has a score record.
    pub open spec fn has_record(&self, peer: usize) -> bool {
        peer < self.peers_begun()
    }

    /// The fields fixed when the fetch was made are those of `other`.
    pub open spec fn same_limits(&self, other: &Self) -> bool {
        &&& self.peer_count == other.peer_count
        &&& self.max_shares_per_request == other.max_shares_per_request
    }

    /// The indices of the shares held.
    pub open spec fn held(&self) -> Set<u32> {
        self.share_indices@.to_set()
    }

    /// A collection from `peer_count` peers; fails without peers, with zero
    /// shares per request, or with more than
    /// `DEFAULT_MAX_DA_SHARES_PER_REQUEST` shares per request.
    pub fn new(peer_count: usize, max_shares_per_request: u32) -> (result: Result<Self, DaError>)
        ensures
            peer_count == 0 ==> result == Err::<Self, DaError>(
                DaError::InsufficientShares { required: 1, actual: 0 },
            ),
            peer_count > 0 && max_shares_per_request == 0 ==> result == Err::<Self, DaError>(
                DaError::InvalidChunkSize,
            ),
            peer_count > 0 && max_shares_per_request > DEFAULT_MAX_DA_SHARES_PER_REQUEST ==> (
            result matches Err(DaError::InvalidPayload(m)) && m@
                == "DA share request exceeds maximum share count"@),
            peer_count > 0 && 0 < max_shares_per_request <= DEFAULT_MAX_DA_SHARES_PER_REQUEST ==> (
            result matches Ok(fetch) && fetch.wf() && fetch.peer_count == peer_count
                && fetch.max_shares_per_request == max_shares_per_request && fetch.manifest is None
                && fetch.share_indices@.len() == 0 && fetch.metrics.is_zero()
                && fetch.peers_begun() == 0),
    {
        if peer_count == 0 {
            return Err(DaError::InsufficientShares { required: 1, actual: 0 });
        }
        if max_shares_per_request == 0 {
            return Err(DaError::InvalidChunkSize);
        }
        if max_shares_per_request > DEFAULT_MAX_DA_SHARES_PER_REQUEST {
            return Err(
                DaError::InvalidPayload("DA share request exceeds maximum share count".to_owned()),
            );
        }
        let fetch = DaShareFetch {
            peer_count,
            max_shares_per_request,
            manifest: None,
            share_indices: Vec::new(),
            metrics: DaShareSyncClientMetrics::default(),
        };
        assert(fetch.share_indices@.no_duplicates());
        Ok(fetch)
    }

    /// Counts an attempt on `peer`, the next peer in order, and opens its
    /// score record.
    pub fn begin_peer(&mut self, peer: usize)
        requires
            old(self).wf(),
            peer == old(self).peers_begun(),
            peer < old(self).peer_count,
        ensures
            final(self).wf(),
            final(self).same_limits(old(self)),
            final(self).peers_begun() == old(self).peers_begun() + 1,
            final(self).has_record(peer),
            final(self).manifest == old(self).manifest,
            final(self).share_indices@ == old(self).share_indices@,
            final(self).metrics.peer_attempts == sat_inc_u32(old(self).metrics.peer_attempts),
            final(self).metrics.peer_failures == old(self).metrics.peer_failures,
            final(self).metrics.invalid_responses == old(self).metrics.invalid_responses,
            final(self).metrics.manifests_received == old(self).metrics.manifests_received,
            final(self).metrics.duplicate_shares == old(self).metrics.duplicate_shares,
            final(self).metrics.requests_sent == old(self).metrics.requests_sent,
            final(self).metrics.shares_received == old(self).metrics.shares_received,
            final(self).metrics.payload_reconstructable == old(self).metrics.payload_reconstructable,
            final(self).metrics.peer_scores@ == old(self).metrics.peer_scores@.push(
                DaShareSyncPeerScore::fresh(peer),
            ),
    {
        proof {
            lemma_in_order_next_peer(self.metrics.peer_scores@, peer);
        }
        self.metrics.peer_attempts = self.metrics.peer_attempts.saturating_add(1);
        let _ = da_peer_score_position(&mut self.metrics, peer);
    }

    /// `peer` could not be reached, or its stream failed.
    pub fn peer_failed(&mut self, peer: usize)
        requires
            old(self).wf(),
            old(self).has_record(peer),
        ensures
            final(self).wf(),
            final(self).same_limits(old(self)),
            final(self).manifest == old(self).manifest,
            final(self).share_indices@ == old(self).share_indices@,
            final(self).metrics.peer_failures == sat_inc_u32(old(self).metrics.peer_failures),
            final(self).metrics.peer_attempts == old(self).metrics.peer_attempts,
            final(self).metrics.invalid_responses == old(self).metrics.invalid_responses,
            final(self).metrics.manifests_received == old(self).metrics.manifests_received,
            final(self).metrics.duplicate_shares == old(self).metrics.duplicate_shares,
            final(self).metrics.requests_sent == old(self).metrics.requests_sent,
            final(self).metrics.shares_received == old(self).metrics.shares_received,
            final(self).metrics.payload_reconstructable == old(self).metrics.payload_reconstructable,
            final(self).metrics.peer_scores@ == old(self).metrics.peer_scores@.update(
                peer as int,
                failure_change(old(self).metrics.peer_scores@[peer as int]),
            ),
    {
        proof {
            lemma_in_order_update(
                self.metrics.peer_scores@,
                peer,
                |s: DaShareSyncPeerScore| failure_change(s),
            );
        }
        self.metrics.peer_failures = self.metrics.peer_failures.saturating_add(1);
        record_da_peer_failure(&mut self.metrics, peer);
    }

    /// `peer` sent something other than what was asked for.
    pub fn invalid_response(&mut self, peer: usize)
        requires
            old(self).wf(),
            old(self).has_record(peer),
        ensures
            final(self).wf(),
            final(self).same_limits(old(self)),
            final(self).manifest == old(self).manifest,
            final(self).share_indices@ == old(self).share_indices@,
            final(self).metrics.invalid_responses == sat_inc_u32(
                old(self).metrics.invalid_responses,
            ),
            final(self).metrics.peer_failures == old(self).metrics.peer_failures,
            final(self).metrics.peer_attempts == old(self).metrics.peer_attempts,
            final(self).metrics.manifests_received == old(self).metrics.manifests_received,
            final(self).metrics.duplicate_shares == old(self).metrics.duplicate_shares,
            final(self).metrics.requests_sent == old(self).metrics.requests_sent,
            final(self).metrics.shares_received == old(self).metrics.shares_received,
            final(self).metrics.payload_reconstructable == old(self).metrics.payload_reconstructable,
            final(self).metrics.peer_scores@ == old(self).metrics.peer_scores@.update(
                peer as int,
                invalid_change(old(self).metrics.peer_scores@[peer as int]),
            ),
    {
        proof {
            lemma_in_order_update(
                self.metrics.peer_scores@,
                peer,
                |s: DaShareSyncPeerScore| invalid_change(s),
            );
        }
        self.metrics.invalid_responses = self.metrics.invalid_responses.saturating_add(1);
        record_da_peer_invalid_response(&mut self.metrics, peer);
    }

    fn holds(&self, index: u32) -> (held: bool)
        ensures
            held == self.held().contains(index),
    {
        let mut i: usize = 0;
        while i < self.share_indices.len()
            invariant
                i <= self.share_indices@.len(),
                forall|j: int| 0 <= j < i ==> self.share_indices@[j] != index,
            decreases self.share_indices@.len() - i,
        {
            if self.share_indices[i] == index {
                assert(self.share_indices@.contains(index));
                return true;
            }
            i = i + 1;
        }
        false
    }

    /// The index where the next share request starts.
    pub fn request_start(&self) -> (start: u32)
        ensures
            start == request_start_spec(self.manifest, self.held()),
    {
        match self.manifest {
            None => 0,
            Some(m) => {
                let mut i: u32 = 0;
                while i < m.encoded_share_count
                    invariant
                        self.manifest == Some(m),
                        i <= m.encoded_share_count,
                        first_missing_from(self.held(), 0, m.encoded_share_count as int)
                            == first_missing_from(self.held(), i as int, m.encoded_share_count as int),
                    decreases m.encoded_share_count - i,
                {
                    if !self.holds(i) {
                        return i;
                    }
                    i = i + 1;
                }
                0
            },
        }
    }

    /// Counts a share request sent.
    pub fn request_sent(&mut self)
        requires
            old(self).wf(),
        ensures
            final(self).wf(),
            final(self).same_limits(old(self)),
            final(self).manifest == old(self).manifest,
            final(self).share_indices@ == old(self).share_indices@,
            final(self).metrics == (DaShareSyncClientMetrics {
                requests_sent: sat_inc_u32(old(self).metrics.requests_sent),
                ..old(self).metrics
            }),
    {
        self.metrics.requests_sent = self.metrics.requests_sent.saturating_add(1);
    }

    /// `peer` answered the request that started at `start` with a manifest.
    /// It is refused (and counted as invalid) when its hash is not the one
    /// asked for, or when it differs from the manifest already accepted.
    /// Returns the number of shares to read from the peer.
    pub fn manifest_response(
        &mut self,
        peer: usize,
        summary: DaManifestSummary,
        hash_matches: bool,
        same_as_first: bool,
        start: u32,
    ) -> (expected: Option<u32>)
        requires
            old(self).wf(),
            old(self).has_record(peer),
        ensures
            final(self).wf(),
            final(self).same_limits(old(self)),
            final(self).share_indices@ == old(self).share_indices@,
            final(self).peers_begun() == old(self).peers_begun(),
            !hash_matches || (old(self).manifest is Some && !same_as_first) ==> (expected is None
                && final(self).manifest == old(self).manifest && final(self).metrics.invalid_responses
                == sat_inc_u32(old(self).metrics.invalid_responses)
                && final(self).metrics.manifests_received == old(self).metrics.manifests_received
                && final(self).metrics.peer_attempts == old(self).metrics.peer_attempts
                && final(self).metrics.peer_failures == old(self).metrics.peer_failures
                && final(self).metrics.requests_sent == old(self).metrics.requests_sent
                && final(self).metrics.duplicate_shares == old(self).metrics.duplicate_shares
                && final(self).metrics.payload_reconstructable
                == old(self).metrics.payload_reconstructable
                && final(self).metrics.peer_scores@ == old(self).metrics.peer_scores@.update(
                peer as int,
                invalid_change(old(self).metrics.peer_scores@[peer as int]),
            )),
            hash_matches && (old(self).manifest is None || same_as_first) ==> ({
                let m = match old(self).manifest {
                    Some(first) => first,
                    None => summary,
                };
                &&& final(self).manifest == Some(m)
                &&& final(self).metrics == (DaShareSyncClientMetrics {
                    manifests_received: sat_inc_u32(old(self).metrics.manifests_received),
                    ..old(self).metrics
                })
                &&& expected == Some(
                    batch_size(m.encoded_share_count, start, old(self).max_shares_per_request),
                )
            }),
    {
        if !hash_matches {
            self.invalid_response(peer);
            return None;
        }
        let m = match self.manifest {
            Some(first) => {
                if !same_as_first {
                    self.invalid_response(peer);
                    return None;
                }
                first
            },
            None => {
                self.manifest = Some(summary);
                summary
            },
        };
        self.metrics.manifests_received = self.metrics.manifests_received.saturating_add(1);
        let remaining = if m.encoded_share_count >= start {
            m.encoded_share_count - start
        } else {
            0
        };
        let expected = if remaining < self.max_shares_per_request {
            remaining
        } else {
            self.max_shares_per_request
        };
        Some(expected)
    }

    /// `peer` sent the share with `index`; `verified` says whether it checks
    /// against the manifest. A share that fails is refused; otherwise the
    /// peer is credited, and the share is kept unless its index is already
    /// held.
    pub fn share_response(&mut self, peer: usize, index: u32, verified: bool) -> (outcome:
        ShareOutcome)
        requires
            old(self).wf(),
            old(self).has_record(peer),
        ensures
            final(self).wf(),
            final(self).same_limits(old(self)),
            final(self).manifest == old(self).manifest,
            !verified ==> outcome == ShareOutcome::Rejected && final(self).share_indices@ == old(
                self,
            ).share_indices@ && final(self).metrics.invalid_responses == sat_inc_u32(
                old(self).metrics.invalid_responses,
            ) && final(self).metrics.duplicate_shares == old(self).metrics.duplicate_shares
                && final(self).metrics.peer_scores@ == old(self).metrics.peer_scores@.update(
                peer as int,
                invalid_change(old(self).metrics.peer_scores@[peer as int]),
            ),
            verified ==> final(self).metrics.invalid_responses == old(
                self,
            ).metrics.invalid_responses && final(self).metrics.peer_scores@
                == old(self).metrics.peer_scores@.update(
                peer as int,
                valid_change(old(self).metrics.peer_scores@[peer as int]),
            ),
            verified && !old(self).held().contains(index) ==> outcome == ShareOutcome::Stored
                && final(self).share_indices@ == old(self).share_indices@.push(index)
                && final(self).metrics.duplicate_shares == old(self).metrics.duplicate_shares,
            verified && old(self).held().contains(index) ==> outcome == ShareOutcome::Duplicate
                && final(self).share_indices@ == old(self).share_indices@
                && final(self).metrics.duplicate_shares == sat_inc_u32(
                old(self).metrics.duplicate_shares,
            ),
            final(self).metrics.peer_attempts == old(self).metrics.peer_attempts,
            final(self).metrics.peer_failures == old(self).metrics.peer_failures,
            final(self).metrics.manifests_received == old(self).metrics.manifests_received,
            final(self).metrics.requests_sent == old(self).metrics.requests_sent,
            final(self).metrics.payload_reconstructable == old(self).metrics.payload_reconstructable,
    {
        if !verified {
            self.invalid_response(peer);
            return ShareOutcome::Rejected;
        }
        proof {
            lemma_in_order_update(
                self.metrics.peer_scores@,
                peer,
                |s: DaShareSyncPeerScore| valid_change(s),
            );
        }
        record_da_peer_valid_response(&mut self.metrics, peer);
        if self.holds(index) {
            self.metrics.duplicate_shares = self.metrics.duplicate_shares.saturating_add(1);
            ShareOutcome::Duplicate
        } else {
            let ghost before = self.share_indices@;
            self.share_indices.push(index);
            assert(self.share_indices@.no_duplicates()) by {
                assert forall|a: int, b: int|
                    0 <= a < self.share_indices@.len() && 0 <= b < self.share_indices@.len() && a
                        != b implies self.share_indices@[a] != self.share_indices@[b] by {
                    if a < before.len() && b < before.len() {
                    } else if a < before.len() {
                        assert(before.contains(self.share_indices@[a]));
                    } else {
                        assert(before.contains(self.share_indices@[b]));
                    }
                }
            }
            self.metrics.shares_received = self.metrics.shares_received.saturating_add(1);
            ShareOutcome::Stored
        }
    }

    /// Whether enough distinct shares are held to attempt reconstruction.
    pub fn reconstruction_ready(&self) -> (ready: bool)
        ensures
            ready == (self.manifest matches Some(m) && self.share_indices@.len()
                >= m.reconstruction_threshold),
    {
        match self.manifest {
            Some(m) => self.share_indices.len() as u64 >= m.reconstruction_threshold as u64,
            None => false,
        }
    }

    /// The collected shares reconstruct the payload; only a fetch that holds
    /// the manifest's threshold of shares can be marked so.
    pub fn mark_reconstructable(&mut self)
        requires
            old(self).wf(),
            old(self).manifest matches Some(m) && old(self).share_indices@.len()
                >= m.reconstruction_threshold,
        ensures
            final(self).wf(),
            final(self).same_limits(old(self)),
            final(self).manifest == old(self).manifest,
            final(self).share_indices@ == old(self).share_indices@,
            final(self).metrics == (DaShareSyncClientMetrics {
                payload_reconstructable: true,
                ..old(self).metrics
            }),
    {
        self.metrics.payload_reconstructable = true;
    }

    /// The error when every peer has been tried without reconstructing the
    /// payload: the manifest's reconstruction threshold (one without a
    /// manifest) against the number of distinct shares held.
    pub fn insufficient_shares(&self) -> (error: DaError)
        ensures
            error == (DaError::InsufficientShares {
                required: match self.manifest {
                    Some(m) => m.reconstruction_threshold,
                    None => 1,
                },
                actual: self.share_indices@.len() as u32,
            }),
    {
        let required = match self.manifest {
            Some(m) => m.reconstruction_threshold,
            None => 1,
        };
        DaError::InsufficientShares {
            required,
            actual: #[verifier::truncate] (self.share_indices.len() as u32),
        }
    }
}

} // verus!
