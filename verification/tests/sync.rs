use detta_node::rate_limit::{DaError, DaShareRequestRateLimiter, DEFAULT_MAX_DA_SHARE_REQUESTS_PER_PEER};
use detta_node::state_sync::{
    ChunkFetchError, DaManifestSummary, DaShareFetch, ShareOutcome, SnapshotChunkFetch,
    SnapshotSyncRetry,
};
use detta_node::sync_metrics::{
    record_da_peer_failure, record_da_peer_invalid_response, record_da_peer_valid_response,
    DaShareSyncClientMetrics, DaShareSyncPeerScore, SnapshotSyncClientMetrics,
    SnapshotSyncRetryPolicy,
};

#[test]
fn da_share_request_rate_limiter_blocks_excessive_peer_requests() {
    let mut limiter = DaShareRequestRateLimiter::new(2).unwrap();
    assert_eq!(limiter.admit_request("peer-1"), Ok(()));
    assert_eq!(limiter.admit_request("peer-1"), Ok(()));
    assert_eq!(limiter.request_count("peer-1"), 2);
    assert!(matches!(limiter.admit_request("peer-1"), Err(DaError::InvalidPayload(_))));
    assert_eq!(limiter.request_count("peer-1"), 2);
    assert_eq!(limiter.admit_request("peer-2"), Ok(()));
    assert_eq!(limiter.request_count("peer-2"), 1);
    assert_eq!(limiter.request_count("peer-3"), 0);
}

#[test]
fn rate_limiter_needs_a_positive_limit() {
    assert_eq!(
        DaShareRequestRateLimiter::new(0).err(),
        Some(DaError::InvalidPayload("DA share request rate limit must be positive".into()))
    );
    let mut limiter = DaShareRequestRateLimiter::default();
    for _ in 0..DEFAULT_MAX_DA_SHARE_REQUESTS_PER_PEER {
        limiter.admit_request("peer").unwrap();
    }
    assert_eq!(limiter.request_count("peer"), 64);
    assert!(limiter.admit_request("peer").is_err());
}

#[test]
fn including_an_attempt_adds_counters_and_keeps_the_last_root() {
    let mut total = SnapshotSyncClientMetrics::default();
    let attempt = SnapshotSyncClientMetrics {
        retry_attempts: 5,
        stream_failures: 5,
        requests_sent: 2,
        manifests_received: 1,
        chunks_received: 4,
        resume_requests: 1,
        metadata_roots_verified: true,
        required_metadata_roots_root: Some("root-1".into()),
    };
    total.include_attempt(attempt.clone());
    total.include_attempt(SnapshotSyncClientMetrics { required_metadata_roots_root: None, metadata_roots_verified: false, ..attempt });
    assert_eq!(total.retry_attempts, 0);
    assert_eq!(total.stream_failures, 0);
    assert_eq!(total.requests_sent, 4);
    assert_eq!(total.chunks_received, 8);
    assert!(total.metadata_roots_verified);
    assert_eq!(total.required_metadata_roots_root, Some("root-1".to_string()));
    assert_eq!(SnapshotSyncRetryPolicy::default().max_attempts, 3);
}

#[test]
fn retries_stop_after_the_configured_attempts() {
    let mut retry = SnapshotSyncRetry::new(SnapshotSyncRetryPolicy { max_attempts: 2 });
    assert_eq!(retry.last_error, "no attempts configured");
    assert!(retry.begin_attempt());
    retry.connect_failed("connection refused".into());
    assert!(retry.begin_attempt());
    assert!(!retry.network_failure("stream reset".into()));
    assert!(!retry.begin_attempt());
    assert_eq!(retry.metrics.retry_attempts, 2);
    assert_eq!(retry.metrics.stream_failures, 1);
    assert_eq!(retry.last_error, "connection refused");

    let mut retry = SnapshotSyncRetry::new(SnapshotSyncRetryPolicy { max_attempts: 0 });
    assert!(!retry.begin_attempt());
}

#[test]
fn chunk_fetch_resumes_where_the_last_batch_ended() {
    assert_eq!(SnapshotChunkFetch::new(0).err(), Some(ChunkFetchError::InvalidChunkSize));
    let mut fetch = SnapshotChunkFetch::new(2).unwrap();
    assert_eq!(fetch.begin_request(), 0);
    assert_eq!(fetch.manifest_received(3, true), Ok(2));
    fetch.chunk_received();
    fetch.chunk_received();
    assert!(!fetch.finish_batch());
    assert_eq!(fetch.begin_request(), 2);
    assert_eq!(fetch.manifest_received(3, true), Ok(1));
    fetch.chunk_received();
    assert!(fetch.finish_batch());
    assert_eq!(fetch.metrics.requests_sent, 2);
    assert_eq!(fetch.metrics.manifests_received, 2);
    assert_eq!(fetch.metrics.resume_requests, 1);
    assert_eq!(fetch.metrics.chunks_received, 3);
    fetch.verified("roots".into());
    assert!(fetch.metrics.metadata_roots_verified);
    assert_eq!(fetch.metrics.required_metadata_roots_root, Some("roots".to_string()));
}

#[test]
fn chunk_fetch_refuses_a_manifest_that_differs_from_the_first() {
    let mut fetch = SnapshotChunkFetch::new(2).unwrap();
    assert_eq!(fetch.begin_request(), 0);
    assert_eq!(fetch.manifest_received(3, true), Ok(2));
    fetch.chunk_received();
    fetch.chunk_received();
    assert!(!fetch.finish_batch());
    assert_eq!(fetch.begin_request(), 2);
    assert_eq!(fetch.manifest_received(4, false), Err(ChunkFetchError::ManifestMismatch));
    assert_eq!(fetch.chunk_count, Some(3));
    assert_eq!(fetch.metrics.manifests_received, 2);
}

#[test]
fn peer_scores_move_by_one_per_response() {
    let mut metrics = DaShareSyncClientMetrics::default();
    record_da_peer_valid_response(&mut metrics, 3);
    record_da_peer_valid_response(&mut metrics, 3);
    record_da_peer_invalid_response(&mut metrics, 1);
    record_da_peer_failure(&mut metrics, 3);
    assert_eq!(
        metrics.peer_scores,
        vec![
            DaShareSyncPeerScore { peer_index: 3, score: 1, valid_responses: 2, invalid_responses: 0, failures: 1 },
            DaShareSyncPeerScore { peer_index: 1, score: -1, valid_responses: 0, invalid_responses: 1, failures: 0 },
        ]
    );
    assert_eq!(DaShareSyncPeerScore::default().score, 0);
}

#[test]
fn share_fetch_validates_its_limits() {
    assert_eq!(DaShareFetch::new(0, 10).err(), Some(DaError::InsufficientShares { required: 1, actual: 0 }));
    assert_eq!(DaShareFetch::new(1, 0).err(), Some(DaError::InvalidChunkSize));
    assert!(matches!(DaShareFetch::new(1, 129).err(), Some(DaError::InvalidPayload(_))));
}

#[test]
fn share_fetch_skips_invalid_shares_and_tracks_missing_indices() {
    let mut fetch = DaShareFetch::new(2, 2).unwrap();
    let manifest = DaManifestSummary { encoded_share_count: 3, reconstruction_threshold: 2 };
    fetch.begin_peer(0);
    assert_eq!(fetch.request_start(), 0);
    fetch.request_sent();
    assert_eq!(fetch.manifest_response(0, manifest, true, true, 0), Some(2));
    assert_eq!(fetch.share_response(0, 0, true), ShareOutcome::Stored);
    assert_eq!(fetch.share_response(0, 1, false), ShareOutcome::Rejected);
    assert!(!fetch.reconstruction_ready());
    assert_eq!(fetch.request_start(), 1);
    fetch.begin_peer(1);
    assert_eq!(fetch.share_response(1, 0, true), ShareOutcome::Duplicate);
    assert_eq!(fetch.share_response(1, 2, true), ShareOutcome::Stored);
    assert!(fetch.reconstruction_ready());
    assert_eq!(fetch.metrics.invalid_responses, 1);
    assert_eq!(fetch.metrics.duplicate_shares, 1);
    fetch.mark_reconstructable();
    assert!(fetch.metrics.payload_reconstructable);
    assert_eq!(fetch.metrics.peer_attempts, 2);
    assert_eq!(fetch.metrics.peer_scores.len(), 2);
    assert_eq!(fetch.metrics.peer_scores[0].peer_index, 0);
    assert_eq!(fetch.metrics.peer_scores[1].peer_index, 1);
}

#[test]
fn share_fetch_keeps_one_record_per_peer() {
    let mut fetch = DaShareFetch::new(2, 4).unwrap();
    fetch.begin_peer(0);
    fetch.peer_failed(0);
    fetch.begin_peer(1);
    fetch.invalid_response(1);
    assert_eq!(fetch.metrics.peer_attempts, 2);
    assert_eq!(fetch.metrics.peer_failures, 1);
    assert_eq!(fetch.metrics.invalid_responses, 1);
    assert_eq!(
        fetch.metrics.peer_scores,
        vec![
            DaShareSyncPeerScore { peer_index: 0, score: -1, valid_responses: 0, invalid_responses: 0, failures: 1 },
            DaShareSyncPeerScore { peer_index: 1, score: -1, valid_responses: 0, invalid_responses: 1, failures: 0 },
        ]
    );
    assert_eq!((fetch.peer_count, fetch.max_shares_per_request), (2, 4));
}

#[test]
fn share_fetch_tries_every_failing_peer_in_order() {
    let mut fetch = DaShareFetch::new(3, 128).unwrap();
    for peer in 0..3 {
        fetch.begin_peer(peer);
        fetch.peer_failed(peer);
    }
    assert_eq!(fetch.insufficient_shares(), DaError::InsufficientShares { required: 1, actual: 0 });
    assert_eq!(fetch.metrics.peer_attempts, 3);
    assert_eq!(fetch.metrics.peer_failures, 3);
    let peers: Vec<usize> = fetch.metrics.peer_scores.iter().map(|s| s.peer_index).collect();
    assert_eq!(peers, vec![0, 1, 2]);
    assert_eq!(fetch.max_shares_per_request, 128);
}

#[test]
fn rate_limiter_counts_equal_admitted_requests_and_stay_within_the_limit() {
    let mut limiter = DaShareRequestRateLimiter::new(3).unwrap();
    let peers = ["a", "b", "", "a", "a", "a", "b", "a", ""];
    let mut admitted_a = 0;
    let mut admitted_b = 0;
    for peer in peers {
        if limiter.admit_request(peer).is_ok() {
            if peer == "a" {
                admitted_a += 1;
            } else if peer == "b" {
                admitted_b += 1;
            }
        }
    }
    assert_eq!(limiter.request_count("a"), admitted_a);
    assert_eq!(limiter.request_count("b"), admitted_b);
    assert_eq!(admitted_a, 3);
    assert_eq!(admitted_b, 2);
    assert_eq!(limiter.request_count(""), 0);
    assert!(limiter.request_count("a") <= 3);
}
