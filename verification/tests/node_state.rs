use detta_node::alerts::{
    finality_lag, operator_alerts_for_state, repair_backlog, AlertMetrics, AlertState,
    OperatorAlertPolicy, OperatorAlertSeverity,
};
use detta_node::options::OptionTable;
use detta_node::metadata_roots::{
    effective_snapshot_metadata_roots, LocalMetadataRoots, MetadataRootKeys,
    snapshot_metadata_root_status, snapshot_root_mismatch, SnapshotMetadataRootInputs,
};
use detta_node::node_error::{
    authorization_outcome, check_message_signer, check_signing_conflict, da_signing_commitment,
    node_rpc_error_code, MempoolErrorKind, NetworkIngestOutcome, NodeError, SignatureDomain,
};
use detta_node::rate_limit::DaError;
use detta_node::serving::{
    block_page_selection, check_da_share_request, da_share_request_range, elapsed_micros,
    records_proof_latency, snapshot_checkpoint_block_hash, RpcRequestClass, RpcServingCounters,
};

fn quiet_policy() -> OperatorAlertPolicy {
    OperatorAlertPolicy {
        min_peer_count: 1,
        max_finality_lag: 2,
        max_latest_block_failure_ratio_per_mille: 500,
        max_storage_bytes: 1_000,
        max_rpc_error_count: 10,
        max_da_repair_lag_blocks: 5,
        max_mempool_size: 100,
    }
}

fn quiet_metrics() -> AlertMetrics {
    AlertMetrics {
        peer_count: Some(3),
        consensus_height: 10,
        finality_lag: Some(1),
        storage_bytes: Some(10),
        rpc_error_count: 0,
        da_missing_share_count: 0,
        da_repair_record_count: 0,
        da_custody_failure_count: 0,
        da_oldest_pending_repair_age_blocks: None,
        da_challenge_evidence_count: 0,
        mempool_size: 0,
    }
}

fn quiet_state() -> AlertState {
    AlertState {
        root_mismatch: false,
        slashing_record_count: 0,
        latest_block_failure_count: 0,
        latest_block_receipt_count: 4,
    }
}

#[test]
fn healthy_node_raises_no_alerts() {
    assert!(operator_alerts_for_state(&quiet_policy(), &quiet_metrics(), &quiet_state()).is_empty());
}

#[test]
fn every_alert_fires_in_its_fixed_order() {
    let metrics = AlertMetrics {
        peer_count: Some(0),
        consensus_height: 10,
        finality_lag: None,
        storage_bytes: Some(2_000),
        rpc_error_count: 11,
        da_missing_share_count: 1,
        da_repair_record_count: 1,
        da_custody_failure_count: 1,
        da_oldest_pending_repair_age_blocks: Some(6),
        da_challenge_evidence_count: 1,
        mempool_size: 101,
    };
    let state = AlertState {
        root_mismatch: true,
        slashing_record_count: 1,
        latest_block_failure_count: 3,
        latest_block_receipt_count: 4,
    };
    let alerts = operator_alerts_for_state(&quiet_policy(), &metrics, &state);
    let codes: Vec<&str> = alerts.iter().map(|a| a.code.as_str()).collect();
    assert_eq!(
        codes,
        vec![
            "operator.peer_isolation",
            "operator.stalled_consensus",
            "operator.root_mismatch",
            "operator.excessive_reverts",
            "operator.slashing_evidence",
            "operator.disk_pressure",
            "operator.rpc_overload",
            "operator.da_missing_shares",
            "operator.da_repair_pending",
            "operator.da_custody_failure",
            "operator.da_repair_lag",
            "operator.da_challenge_failure",
            "operator.mempool_saturation",
        ]
    );
    assert_eq!(alerts[0].severity, OperatorAlertSeverity::Critical);
    assert_eq!(alerts[0].message, "observed peer count is below policy minimum");
    assert_eq!(alerts[3].severity, OperatorAlertSeverity::Warning);
}

#[test]
fn thresholds_are_strict() {
    let metrics = AlertMetrics { finality_lag: Some(2), storage_bytes: Some(1_000), rpc_error_count: 10, mempool_size: 100, ..quiet_metrics() };
    let state = AlertState { latest_block_failure_count: 2, latest_block_receipt_count: 4, ..quiet_state() };
    assert!(operator_alerts_for_state(&quiet_policy(), &metrics, &state).is_empty());
    let idle = AlertMetrics { consensus_height: 0, finality_lag: None, peer_count: None, ..quiet_metrics() };
    assert!(operator_alerts_for_state(&quiet_policy(), &idle, &AlertState { latest_block_receipt_count: 0, latest_block_failure_count: 9, ..quiet_state() }).is_empty());
}

#[test]
fn finality_lag_and_repair_backlog() {
    assert_eq!(finality_lag(10, Some(7)), Some(3));
    assert_eq!(finality_lag(3, Some(7)), Some(0));
    assert_eq!(finality_lag(3, None), None);
    assert_eq!(repair_backlog(10, &[(false, 4), (true, 1), (false, 8)]), (2, Some(6)));
    assert_eq!(repair_backlog(10, &[(true, 4)]), (0, None));
    assert_eq!(repair_backlog(2, &[(false, 5)]), (1, Some(0)));
}

fn inputs() -> SnapshotMetadataRootInputs {
    SnapshotMetadataRootInputs {
        persisted_validator_set_metadata_audit_root: None,
        local_validator_set_metadata_audit_root: "local-audit".into(),
        persisted_snapshot_import_audit_config_root: None,
        local_snapshot_import_audit_config_root: None,
        persisted_snapshot_import_audit_root: None,
        local_snapshot_import_audit_root: None,
        persisted_required_snapshot_metadata_roots_root: None,
        local_required_snapshot_metadata_roots_root: None,
        persisted_snapshot_sync_client_metrics_root: None,
        local_snapshot_sync_client_metrics_root: None,
    }
}

#[test]
fn fresh_node_reports_local_roots_without_mismatch() {
    let status = snapshot_metadata_root_status(&inputs());
    assert_eq!(status.validator_set_metadata_audit_root, "local-audit");
    assert!(!status.using_imported_validator_set_metadata_audit_root);
    assert!(!status.persisted_matches_local_validator_set_metadata_audit_root);
    assert_eq!(status.snapshot_import_audit_root, None);
    assert!(!snapshot_root_mismatch(&status));
}

#[test]
fn imported_roots_are_used_and_reported_as_mismatches() {
    let status = snapshot_metadata_root_status(&SnapshotMetadataRootInputs {
        persisted_validator_set_metadata_audit_root: Some("imported-audit".into()),
        persisted_snapshot_import_audit_root: Some("imported-import".into()),
        ..inputs()
    });
    assert_eq!(status.validator_set_metadata_audit_root, "imported-audit");
    assert!(status.using_imported_validator_set_metadata_audit_root);
    assert_eq!(status.snapshot_import_audit_root, Some("imported-import".to_string()));
    assert!(status.using_imported_snapshot_import_audit_root);
    assert!(snapshot_root_mismatch(&status));

    let status = snapshot_metadata_root_status(&SnapshotMetadataRootInputs {
        persisted_validator_set_metadata_audit_root: Some("local-audit".into()),
        persisted_snapshot_sync_client_metrics_root: Some("m".into()),
        local_snapshot_sync_client_metrics_root: Some("m".into()),
        ..inputs()
    });
    assert!(status.persisted_matches_local_validator_set_metadata_audit_root);
    assert!(status.persisted_matches_local_snapshot_sync_client_metrics_root);
    assert!(!snapshot_root_mismatch(&status));
}

#[test]
fn error_codes_are_stable() {
    assert_eq!(
        node_rpc_error_code(&NodeError::ValidatorSetMetadataUpdateExpired { update_id: "u".into(), expires_at_height: 1, current_height: 1 }),
        "node.validator_set_metadata_update_expired"
    );
    assert_eq!(node_rpc_error_code(&NodeError::ValidatorSetMetadataUpdateMismatch), "node.validator_set_metadata_update_mismatch");
    assert_eq!(node_rpc_error_code(&NodeError::QuorumNotReached { accepted: 1, required: 2 }), "node.validator_quorum_not_reached");
    assert_eq!(node_rpc_error_code(&NodeError::Mempool(MempoolErrorKind::PoolFull)), "mempool.pool_full");
    assert_eq!(node_rpc_error_code(&NodeError::Mempool(MempoolErrorKind::Other)), "node.error");
    assert_eq!(node_rpc_error_code(&NodeError::DataAvailability(DaError::InvalidChunkSize)), "node.data_availability_error");
    assert_eq!(node_rpc_error_code(&NodeError::DuplicateValidatorKey("v".into())), "node.error");
    assert_eq!(node_rpc_error_code(&NodeError::Signature), "node.validator_signature_error");
}

#[test]
fn consensus_signing_guards() {
    assert_eq!(authorization_outcome(2, 2), NetworkIngestOutcome::ValidatorSetMetadataUpdated);
    assert_eq!(authorization_outcome(1, 2), NetworkIngestOutcome::ValidatorSetMetadataAuthorizationStored);
    assert_eq!(check_message_signer("validator-1", "validator-1"), Ok(()));
    assert_eq!(
        check_message_signer("validator-1", "validator-2"),
        Err(NodeError::ConsensusMessageSignerMismatch { expected: "validator-1".into(), actual: "validator-2".into() })
    );
    assert_eq!(da_signing_commitment("block", "manifest"), "block:manifest");
}

#[test]
fn validator_cannot_sign_two_blocks_at_one_height() {
    assert_eq!(check_signing_conflict("validator-1", SignatureDomain::BlockProposal, 1, None, "block-aaa"), Ok(()));
    assert_eq!(check_signing_conflict("validator-1", SignatureDomain::BlockProposal, 1, Some("block-aaa"), "block-aaa"), Ok(()));
    assert_eq!(
        check_signing_conflict("validator-1", SignatureDomain::BlockProposal, 1, Some("block-aaa"), "block-bbb"),
        Err(NodeError::ConsensusSigningConflict {
            validator_id: "validator-1".into(),
            domain: SignatureDomain::BlockProposal,
            height: 1,
            existing_block_hash: "block-aaa".into(),
            attempted_block_hash: "block-bbb".into(),
        })
    );
}

#[test]
fn share_requests_are_bounded_and_clipped_to_the_manifest() {
    assert_eq!(check_da_share_request(0), Err(NodeError::DataAvailability(DaError::InvalidChunkSize)));
    assert_eq!(
        check_da_share_request(129),
        Err(NodeError::DataAvailability(DaError::InvalidPayload("DA share request exceeds maximum share count".into())))
    );
    assert_eq!(check_da_share_request(128), Ok(()));
    assert_eq!(da_share_request_range(2, 4, 10), (2, 6));
    assert_eq!(da_share_request_range(8, 4, 10), (8, 10));
    assert_eq!(da_share_request_range(u32::MAX - 1, 4, u32::MAX), (u32::MAX - 1, u32::MAX));
    assert_eq!(da_share_request_range(12, 4, 10), (12, 10));
}

#[test]
fn block_pages_filter_by_height_and_cap_the_limit() {
    let page = block_page_selection(&vec![3, 1, 5, 2, 7], 2, 10, 3);
    assert_eq!(page.limit, 3);
    assert_eq!(page.positions, vec![0, 2, 3]);
    assert_eq!(page.highest_height, 7);
    let empty = block_page_selection(&vec![], 0, 5, 100);
    assert_eq!(empty.limit, 5);
    assert!(empty.positions.is_empty());
    assert_eq!(empty.highest_height, 0);
}

#[test]
fn rpc_accounting_counts_errors_and_times_proofs() {
    assert!(records_proof_latency(RpcRequestClass::EventProof));
    assert!(!records_proof_latency(RpcRequestClass::Other));
    assert_eq!(elapsed_micros(0), 1);
    assert_eq!(elapsed_micros(42), 42);
    assert_eq!(elapsed_micros(u128::MAX), u64::MAX);
    let mut counters = RpcServingCounters::new();
    counters.record_response(RpcRequestClass::Other, 50, true);
    assert_eq!(counters.rpc_error_count, 1);
    assert_eq!(counters.last_proof_serving_micros, None);
    counters.record_response(RpcRequestClass::ReceiptProof, 0, false);
    assert_eq!(counters.rpc_error_count, 1);
    assert_eq!(counters.last_proof_serving_micros, Some(1));
    counters.rpc_error_count = u64::MAX;
    counters.record_response(RpcRequestClass::Other, 1, true);
    assert_eq!(counters.rpc_error_count, u64::MAX);
}

#[test]
fn checkpoint_block_hash_names_the_manifest() {
    assert_eq!(snapshot_checkpoint_block_hash("abc"), "snapshot-checkpoint:abc");
}

fn root_keys() -> MetadataRootKeys {
    MetadataRootKeys {
        validator_set_audit: "vs".to_string(),
        state_sync_client_metrics: "metrics".to_string(),
        required_metadata_roots: "required".to_string(),
        snapshot_import_audit: "import".to_string(),
        snapshot_import_audit_config: "config".to_string(),
    }
}

#[test]
fn stored_validator_set_audit_root_wins_over_the_local_one() {
    let mut stored = OptionTable::new();
    stored.insert("vs".to_string(), "imported-vs".to_string());
    stored.insert("import".to_string(), "old-import".to_string());
    let local = LocalMetadataRoots {
        validator_set_audit: "local-vs".to_string(),
        state_sync_client_metrics: Some("local-metrics".to_string()),
        required_metadata_roots: None,
        snapshot_import_audit: Some("local-import".to_string()),
        snapshot_import_audit_config: None,
    };
    let roots = effective_snapshot_metadata_roots(stored, &root_keys(), &local);
    assert_eq!(roots.get("vs").map(|s| s.as_str()), Some("imported-vs"));
    assert_eq!(roots.get("metrics").map(|s| s.as_str()), Some("local-metrics"));
    assert_eq!(roots.get("import").map(|s| s.as_str()), Some("local-import"));
    assert_eq!(roots.get("required"), None);
    assert_eq!(roots.get("config"), None);
    let pairs = roots.to_pairs();
    assert_eq!(pairs.len(), 4);
}

#[test]
fn missing_validator_set_audit_root_is_filled_locally() {
    let local = LocalMetadataRoots {
        validator_set_audit: "local-vs".to_string(),
        state_sync_client_metrics: None,
        required_metadata_roots: Some("req".to_string()),
        snapshot_import_audit: None,
        snapshot_import_audit_config: Some("cfg".to_string()),
    };
    let roots = effective_snapshot_metadata_roots(OptionTable::new(), &root_keys(), &local);
    assert_eq!(roots.get("vs").map(|s| s.as_str()), Some("local-vs"));
    assert_eq!(roots.get("required").map(|s| s.as_str()), Some("req"));
    assert_eq!(roots.get("config").map(|s| s.as_str()), Some("cfg"));
    assert_eq!(roots.get("metrics"), None);
}

#[test]
fn failure_count_without_receipts_raises_no_revert_alert() {
    let state = AlertState {
        latest_block_failure_count: usize::MAX,
        latest_block_receipt_count: 0,
        ..quiet_state()
    };
    assert!(operator_alerts_for_state(&quiet_policy(), &quiet_metrics(), &state).is_empty());
}
