use detta_node::alerts::{flag_count, highest_finalized_height, repair_needed};
use detta_node::serving::checkpoint_previous_block_hash;
use detta_node::alerts::OperatorAlertPolicy;
use detta_node::consensus_round::{
    accept_peer_certificate, check_proposal_height, check_rebuilt_block, follower_next_height,
    local_block_certificate, proposal_certificate, vote_after_ingest,
};
use detta_node::node_error::{
    check_block_proposer, check_signing_key, ExternalErrorSource, NetworkIngestOutcome, NodeError,
};
use detta_node::node_settings::{
    NodeSettings, SnapshotImportAuditConfig, DEFAULT_MAX_SNAPSHOT_IMPORT_AUDIT_PAGE_SIZE,
    DEFAULT_MAX_SNAPSHOT_IMPORT_AUDIT_RECORDS, DEFAULT_MAX_VALIDATOR_SET_METADATA_AUDIT_PAGE_SIZE,
    DEFAULT_MAX_VALIDATOR_SET_METADATA_AUDIT_RECORDS, DEFAULT_NODE_NETWORK_ID,
};
use detta_node::rpc_lookup::{
    audit_page_limit, is_error_reply, lookup_reply, not_found_error, receipt_proof_reply,
    LookupReply, RpcLookup, RpcNotFound,
};

fn policy() -> OperatorAlertPolicy {
    OperatorAlertPolicy {
        min_peer_count: 1,
        max_finality_lag: 2,
        max_latest_block_failure_ratio_per_mille: 500,
        max_storage_bytes: 1_000,
        max_rpc_error_count: 10,
        max_da_repair_lag_blocks: 5,
        max_mempool_size: 100,
    }
}

#[test]
fn lookups_answer_found_missing_or_failed() {
    match lookup_reply(RpcLookup::Block, Ok(Some("block-7".to_string()))) {
        LookupReply::Found(block) => assert_eq!(block, "block-7"),
        other => panic!("unexpected {other:?}"),
    }
    match lookup_reply::<String>(RpcLookup::DaShare, Ok(None)) {
        LookupReply::Missing(error) => assert_eq!(error, RpcNotFound::DaShareNotFound),
        other => panic!("unexpected {other:?}"),
    }
    let failed = lookup_reply::<String>(
        RpcLookup::Receipt,
        Err(NodeError::External(ExternalErrorSource::Storage)),
    );
    assert!(is_error_reply(&failed));
    match failed {
        LookupReply::Failed(error) => {
            assert_eq!(error, NodeError::External(ExternalErrorSource::Storage))
        }
        other => panic!("unexpected {other:?}"),
    }
}

#[test]
fn each_lookup_has_its_own_not_found_error() {
    assert_eq!(not_found_error(RpcLookup::Transaction), RpcNotFound::TransactionNotFound);
    assert_eq!(not_found_error(RpcLookup::FinalityCertificate), RpcNotFound::CertificateNotFound);
    assert_eq!(
        not_found_error(RpcLookup::ApplicationDaNamespace),
        RpcNotFound::ApplicationDaNamespaceNotFound
    );
    assert_eq!(not_found_error(RpcLookup::DaChallengeRecord), RpcNotFound::DaChallengeRecordNotFound);
}

#[test]
fn receipt_proofs_tell_missing_blocks_from_missing_receipts() {
    match receipt_proof_reply::<u32>(Ok(None)) {
        LookupReply::Missing(error) => assert_eq!(error, RpcNotFound::BlockNotFound),
        other => panic!("unexpected {other:?}"),
    }
    match receipt_proof_reply::<u32>(Ok(Some(None))) {
        LookupReply::Missing(error) => assert_eq!(error, RpcNotFound::ProofNotFound),
        other => panic!("unexpected {other:?}"),
    }
    let found = receipt_proof_reply(Ok(Some(Some(9u32))));
    assert!(!is_error_reply(&found));
    assert!(matches!(found, LookupReply::Found(9)));
}

#[test]
fn audit_pages_are_capped() {
    assert_eq!(audit_page_limit(10, 100), 10);
    assert_eq!(audit_page_limit(500, 100), 100);
}

#[test]
fn fresh_settings_use_the_defaults() {
    let settings = NodeSettings::new("validator-1", policy());
    assert_eq!(settings.validator_id(), "validator-1");
    assert_eq!(settings.network_id(), DEFAULT_NODE_NETWORK_ID);
    assert_eq!(settings.network_id(), "detta-localnet");
    assert_eq!(settings.max_validator_set_metadata_audit_records, DEFAULT_MAX_VALIDATOR_SET_METADATA_AUDIT_RECORDS);
    assert_eq!(settings.max_validator_set_metadata_audit_page_size, DEFAULT_MAX_VALIDATOR_SET_METADATA_AUDIT_PAGE_SIZE);
    assert_eq!(
        settings.snapshot_import_audit_config(),
        SnapshotImportAuditConfig {
            max_records: DEFAULT_MAX_SNAPSHOT_IMPORT_AUDIT_RECORDS,
            max_page_size: DEFAULT_MAX_SNAPSHOT_IMPORT_AUDIT_PAGE_SIZE,
        }
    );
    assert_eq!(DEFAULT_MAX_SNAPSHOT_IMPORT_AUDIT_RECORDS, 4_096);
    assert_eq!(DEFAULT_MAX_SNAPSHOT_IMPORT_AUDIT_PAGE_SIZE, 100);
    assert_eq!(settings.last_block_execution_micros, None);
}

#[test]
fn restart_keeps_the_stored_audit_limits() {
    let stored = SnapshotImportAuditConfig { max_records: 3, max_page_size: 2 };
    let settings = NodeSettings::restarted("validator-2", policy(), Some(stored));
    assert_eq!(settings.snapshot_import_audit_config(), stored);
    assert_eq!(settings.snapshot_import_audit_page_limit(10), 2);
    let settings = NodeSettings::restarted("validator-2", policy(), None);
    assert_eq!(settings.snapshot_import_audit_config().max_records, 4_096);
}

#[test]
fn setters_change_one_setting_each() {
    let mut settings = NodeSettings::new("validator-1", policy());
    settings.set_network_id("detta-testnet");
    assert_eq!(settings.network_id(), "detta-testnet");
    settings.set_validator_set_metadata_audit_limits(8, 3);
    assert_eq!(settings.validator_set_metadata_audit_page_limit(50), 3);
    assert_eq!(settings.validator_set_metadata_audit_page_limit(1), 1);
    let config = settings.set_snapshot_import_audit_limits(16, 4);
    assert_eq!(config, SnapshotImportAuditConfig { max_records: 16, max_page_size: 4 });
    assert_eq!(settings.snapshot_import_audit_config(), config);
    let mut stricter = policy();
    stricter.min_peer_count = 5;
    settings.set_operator_alert_policy(stricter);
    assert_eq!(settings.operator_alert_policy.min_peer_count, 5);
    assert_eq!(settings.validator_id(), "validator-1");
    settings.record_block_execution(0);
    assert_eq!(settings.last_block_execution_micros, Some(1));
    settings.record_block_execution(250);
    assert_eq!(settings.last_block_execution_micros, Some(250));
}

#[test]
fn peer_certificates_need_a_matching_local_block_and_a_valid_quorum() {
    let local = Some("hash-5".to_string());
    assert!(accept_peer_certificate(&local, "hash-5", true));
    assert!(!accept_peer_certificate(&local, "hash-5", false));
    assert!(!accept_peer_certificate(&local, "hash-6", true));
    assert!(!accept_peer_certificate(&None, "hash-5", true));
}

#[test]
fn validators_vote_only_on_imported_blocks() {
    assert!(vote_after_ingest(NetworkIngestOutcome::BlockImported));
    assert!(!vote_after_ingest(NetworkIngestOutcome::TransactionAccepted));
    assert!(!vote_after_ingest(NetworkIngestOutcome::IgnoredControlMessage));
}

#[test]
fn followers_fetch_the_next_missing_height() {
    assert_eq!(follower_next_height(3, 7), Some(4));
    assert_eq!(follower_next_height(7, 7), None);
    assert_eq!(follower_next_height(9, 7), None);
    assert_eq!(follower_next_height(u64::MAX - 1, u64::MAX), Some(u64::MAX));
}

#[test]
fn highest_finalized_height_is_searched_from_the_top() {
    assert_eq!(highest_finalized_height(&[true, true, false, true, false]), Some(4));
    assert_eq!(highest_finalized_height(&[false, false]), None);
    assert_eq!(highest_finalized_height(&[]), None);
    assert_eq!(highest_finalized_height(&[true]), Some(1));
}

#[test]
fn flags_are_counted_and_repairs_flagged() {
    assert_eq!(flag_count(&[true, false, true, true]), 3);
    assert_eq!(flag_count(&[]), 0);
    assert!(repair_needed(1, true));
    assert!(repair_needed(0, false));
    assert!(!repair_needed(0, true));
}

#[test]
fn checkpoints_follow_the_highest_stored_block() {
    let blocks = vec![
        (1u64, "h1".to_string()),
        (3u64, "h3".to_string()),
        (2u64, "h2".to_string()),
    ];
    assert_eq!(checkpoint_previous_block_hash(&blocks, "state-root"), "h3");
    assert_eq!(checkpoint_previous_block_hash(&Vec::new(), "state-root"), "state-root");
    let tied = vec![(5u64, "first".to_string()), (5u64, "second".to_string())];
    assert_eq!(checkpoint_previous_block_hash(&tied, "state-root"), "second");
}

#[test]
fn validators_sign_only_with_their_own_key_and_propose_only_their_blocks() {
    assert!(check_signing_key("validator-1", "validator-1").is_ok());
    assert_eq!(
        check_signing_key("validator-1", "validator-2"),
        Err(NodeError::SigningKeyMismatch {
            expected: "validator-1".to_string(),
            actual: "validator-2".to_string(),
        })
    );
    assert!(check_block_proposer("validator-1", "validator-1").is_ok());
    assert_eq!(
        check_block_proposer("validator-1", "validator-3"),
        Err(NodeError::BlockProposerMismatch {
            expected: "validator-1".to_string(),
            actual: "validator-3".to_string(),
        })
    );
}

#[test]
fn proposals_carry_labelled_certificates_and_must_build_on_the_tip() {
    assert_eq!(proposal_certificate("validator-1", 7), "bft-cert:validator-1:7");
    assert_eq!(local_block_certificate("validator-2", 0), "sim-cert:validator-2:0");
    assert!(check_proposal_height(4, 5).is_ok());
    assert_eq!(
        check_proposal_height(4, 6),
        Err(NodeError::BlockProposalRejected(
            "proposed height 6 does not build on current height 4 (expected 5)".to_string()
        ))
    );
    assert!(check_rebuilt_block(5, "abc", "abc").is_ok());
    assert_eq!(
        check_rebuilt_block(5, "abc", "abd"),
        Err(NodeError::BlockProposalRejected(
            "re-executed block at height 5 does not match the proposal".to_string()
        ))
    );
}
