use detta_node::keyring::{keyring_from_metadata, ValidatorPublicKey};
use detta_node::node_error::NodeError;
use detta_node::validator_set::{
    validator_set_metadata_quorum, ValidatorSetMetadata, ValidatorSetRegistry,
    ValidatorSetUpdateAuthorization, DEFAULT_MAX_PENDING_VALIDATOR_SET_METADATA_UPDATES,
};
use detta_node::validator_update::{
    reject_expired_validator_set_metadata_update, validator_set_metadata_update_expired,
    ValidatorSetMetadataUpdate,
};

fn key(id: &str, byte: u8) -> ValidatorPublicKey {
    ValidatorPublicKey { validator_id: id.to_string(), public_key: vec![byte; 4] }
}

fn update(id: &str, add: Vec<ValidatorPublicKey>, remove: &[&str], expires: Option<u64>) -> ValidatorSetMetadataUpdate {
    ValidatorSetMetadataUpdate {
        update_id: id.to_string(),
        add_validators: add,
        remove_validators: remove.iter().map(|s| s.to_string()).collect(),
        expires_at_height: expires,
    }
}

fn metadata(validators: Vec<ValidatorPublicKey>, applied: &[&str]) -> ValidatorSetMetadata {
    ValidatorSetMetadata {
        network_id: "detta-testnet".into(),
        chain_id: "detta-local".into(),
        validators,
        applied_updates: applied.iter().map(|s| s.to_string()).collect(),
    }
}

fn two_validators() -> ValidatorSetRegistry {
    ValidatorSetRegistry::from_metadata("detta-local", &metadata(vec![key("validator-1", 7), key("validator-2", 8)], &[])).unwrap()
}

fn authorization(signer: &str, u: ValidatorSetMetadataUpdate) -> Result<ValidatorSetUpdateAuthorization, NodeError> {
    Ok(ValidatorSetUpdateAuthorization { signer: signer.to_string(), update: u })
}

#[test]
fn keyring_rejects_duplicate_validator_keys() {
    let error = keyring_from_metadata(&vec![key("validator-1", 1), key("validator-2", 2), key("validator-1", 3), key("validator-2", 4)])
        .err()
        .unwrap();
    assert_eq!(error, NodeError::DuplicateValidatorKey("validator-1".into()));
    let error = ValidatorSetRegistry::from_metadata("detta-local", &metadata(vec![key("validator-1", 7), key("validator-1", 8)], &[])).err();
    assert_eq!(error, Some(NodeError::DuplicateValidatorKey("validator-1".into())));
}

#[test]
fn metadata_of_another_chain_is_refused() {
    let error = ValidatorSetRegistry::from_metadata("detta-main", &metadata(vec![key("validator-1", 7)], &[])).err();
    assert_eq!(
        error,
        Some(NodeError::ValidatorSetChainMismatch { expected: "detta-main".into(), actual: "detta-local".into() })
    );
}

#[test]
fn registry_reads_back_the_metadata_it_writes() {
    let mut registry = ValidatorSetRegistry::from_metadata(
        "detta-local",
        &metadata(vec![key("validator-2", 8), key("validator-1", 7)], &["u-2", "u-1", "u-2"]),
    )
    .unwrap();
    registry.trust_validator_key(key("validator-0", 6));
    let written = registry.metadata("detta-testnet", "detta-local");
    assert_eq!(written.network_id, "detta-testnet");
    let ids: Vec<String> = written.validators.iter().map(|k| k.validator_id.clone()).collect();
    assert_eq!(ids, vec!["validator-0", "validator-1", "validator-2"]);
    assert_eq!(written.applied_updates, vec!["u-1", "u-2"]);
    let reread = ValidatorSetRegistry::from_metadata("detta-local", &written).unwrap();
    assert_eq!(reread.validator_key_count(), 3);
    assert_eq!(reread.trusted_validator_key("validator-0").unwrap().public_key, vec![6; 4]);
    assert!(reread.has_applied_validator_set_update("u-1"));
    assert!(reread.has_applied_validator_set_update("u-2"));
    assert!(!reread.has_applied_validator_set_update("u-3"));
}

#[test]
fn expiry_is_reached_at_the_expiry_height() {
    let u = update("u", vec![], &[], Some(1));
    assert!(!validator_set_metadata_update_expired(&u, 0));
    assert!(validator_set_metadata_update_expired(&u, 1));
    assert!(!validator_set_metadata_update_expired(&update("u", vec![], &[], None), u64::MAX));
    assert_eq!(
        reject_expired_validator_set_metadata_update(&u, 1),
        Err(NodeError::ValidatorSetMetadataUpdateExpired { update_id: "u".into(), expires_at_height: 1, current_height: 1 })
    );
    assert_eq!(reject_expired_validator_set_metadata_update(&u, 0), Ok(()));
}

#[test]
fn quorum_is_at_least_one() {
    assert_eq!(validator_set_metadata_quorum(0), 1);
    assert_eq!(validator_set_metadata_quorum(2), 2);
}

#[test]
fn quorum_authorized_update_applies_and_cannot_be_replayed() {
    let mut registry = two_validators();
    let u = || update("validator-set-update-1", vec![key("validator-3", 9)], &["validator-2"], None);
    let signed = vec![authorization("validator-1", u()), authorization("validator-2", u())];
    registry.apply_quorum_authorized_validator_set_metadata_update_with_quorum(signed, 2).unwrap();
    assert!(registry.has_applied_validator_set_update("validator-set-update-1"));
    assert!(registry.trusted_validator_key("validator-1").is_some());
    assert!(registry.trusted_validator_key("validator-2").is_none());
    assert!(registry.trusted_validator_key("validator-3").is_some());
    let replay = vec![authorization("validator-1", u()), authorization("validator-3", u())];
    assert_eq!(
        registry.apply_quorum_authorized_validator_set_metadata_update_with_quorum(replay, 2),
        Err(NodeError::ValidatorSetMetadataUpdateAlreadyApplied("validator-set-update-1".into()))
    );
}

#[test]
fn quorum_counts_distinct_signers() {
    let mut registry = two_validators();
    let u = || update("u-1", vec![key("validator-3", 9)], &[], None);
    let signed = vec![authorization("validator-1", u()), authorization("validator-1", u())];
    assert_eq!(
        registry.apply_quorum_authorized_validator_set_metadata_update_with_quorum(signed, 2),
        Err(NodeError::QuorumNotReached { accepted: 1, required: 2 })
    );
    assert_eq!(
        registry.apply_quorum_authorized_validator_set_metadata_update_with_quorum(vec![], 0),
        Err(NodeError::QuorumNotReached { accepted: 0, required: 0 })
    );
    assert!(registry.trusted_validator_key("validator-3").is_none());
}

#[test]
fn mismatched_and_failed_authorizations_stop_the_batch() {
    let mut registry = two_validators();
    let a = update("u-1", vec![key("validator-3", 9)], &[], None);
    let b = update("u-1", vec![key("validator-4", 9)], &[], None);
    let signed = vec![authorization("validator-1", a), authorization("validator-2", b)];
    assert_eq!(
        registry.apply_quorum_authorized_validator_set_metadata_update_with_quorum(signed, 1),
        Err(NodeError::ValidatorSetMetadataUpdateMismatch)
    );
    let signed = vec![
        authorization("validator-1", update("u-1", vec![], &[], None)),
        Err(NodeError::Signature),
    ];
    assert_eq!(
        registry.apply_quorum_authorized_validator_set_metadata_update_with_quorum(signed, 1),
        Err(NodeError::Signature)
    );
    assert_eq!(registry.validator_key_count(), 2);
}

#[test]
fn update_errors_name_the_offending_validator() {
    let mut registry = two_validators();
    let missing = vec![authorization("validator-1", update("u-1", vec![], &["validator-9"], None))];
    assert_eq!(
        registry.apply_quorum_authorized_validator_set_metadata_update_with_quorum(missing, 1),
        Err(NodeError::ValidatorMetadataKeyNotFound("validator-9".into()))
    );
    let twice = vec![authorization("validator-1", update("u-1", vec![], &["validator-2", "validator-2"], None))];
    assert_eq!(
        registry.apply_quorum_authorized_validator_set_metadata_update_with_quorum(twice, 1),
        Err(NodeError::ValidatorMetadataKeyNotFound("validator-2".into()))
    );
    let duplicate = vec![authorization("validator-1", update("u-1", vec![key("validator-1", 1)], &[], None))];
    assert_eq!(
        registry.apply_quorum_authorized_validator_set_metadata_update_with_quorum(duplicate, 1),
        Err(NodeError::DuplicateValidatorKey("validator-1".into()))
    );
    let rotate = vec![authorization("validator-1", update("u-1", vec![key("validator-2", 1)], &["validator-2"], None))];
    registry.apply_quorum_authorized_validator_set_metadata_update_with_quorum(rotate, 1).unwrap();
    assert_eq!(registry.trusted_validator_key("validator-2").unwrap().public_key, vec![1; 4]);
    assert!(!registry.has_applied_validator_set_update("u-0"));
}

#[test]
fn single_authorization_is_stored_without_quorum() {
    let mut registry = two_validators();
    let applied = registry
        .propose_validator_set_metadata_update_authorization(
            "validator-1".into(),
            update("validator-set-update-1", vec![key("validator-3", 9)], &[], None),
            0,
            2,
        )
        .unwrap();
    assert!(!applied);
    assert_eq!(registry.pending_validator_set_metadata_authorization_count("validator-set-update-1"), 1);
    assert!(!registry.has_applied_validator_set_update("validator-set-update-1"));
    assert!(registry.trusted_validator_key("validator-3").is_none());
    let status = registry.validator_set_metadata_update_status("validator-set-update-1", 2);
    assert_eq!(status.pending_authorizations, 1);
    assert_eq!(status.required_quorum, 2);
    assert!(!status.applied);

    let applied = registry
        .propose_validator_set_metadata_update_authorization(
            "validator-2".into(),
            update("validator-set-update-1", vec![key("validator-3", 9)], &[], None),
            0,
            2,
        )
        .unwrap();
    assert!(applied);
    assert_eq!(registry.pending_validator_set_metadata_authorization_count("validator-set-update-1"), 0);
    assert!(registry.trusted_validator_key("validator-3").is_some());
    assert_eq!(
        registry.insert_pending_validator_set_metadata_authorization(
            "validator-3".into(),
            update("validator-set-update-1", vec![key("validator-3", 9)], &[], None),
            0,
        ),
        Err(NodeError::ValidatorSetMetadataUpdateAlreadyApplied("validator-set-update-1".into()))
    );
}

#[test]
fn pending_pool_is_bounded() {
    let mut registry = two_validators();
    registry.set_validator_set_metadata_authorization_limits(1, 10);
    assert_eq!(
        registry.insert_pending_validator_set_metadata_authorization(
            "validator-1".into(),
            update("validator-set-update-1", vec![key("validator-3", 9)], &[], None),
            0
        ),
        Ok(1)
    );
    assert_eq!(
        registry.insert_pending_validator_set_metadata_authorization(
            "validator-2".into(),
            update("validator-set-update-2", vec![key("validator-4", 10)], &[], None),
            0
        ),
        Err(NodeError::ValidatorSetMetadataAuthorizationPoolFull { pending_updates: 1, max_pending_updates: 1 })
    );
    assert_eq!(registry.pending_validator_set_metadata_authorization_count("validator-set-update-2"), 0);
    assert_eq!(
        registry.insert_pending_validator_set_metadata_authorization(
            "validator-2".into(),
            update("validator-set-update-1", vec![key("validator-3", 9)], &[], None),
            0
        ),
        Ok(2)
    );
}

#[test]
fn pending_authorizations_are_rate_limited_by_signer() {
    let mut registry = two_validators();
    registry.set_validator_set_metadata_authorization_limits(10, 1);
    let first = || update("validator-set-update-1", vec![key("validator-3", 9)], &[], None);
    assert_eq!(registry.insert_pending_validator_set_metadata_authorization("validator-1".into(), first(), 0), Ok(1));
    assert_eq!(registry.insert_pending_validator_set_metadata_authorization("validator-1".into(), first(), 0), Ok(1));
    assert_eq!(
        registry.insert_pending_validator_set_metadata_authorization(
            "validator-1".into(),
            update("validator-set-update-2", vec![key("validator-4", 10)], &[], None),
            0
        ),
        Err(NodeError::ValidatorSetMetadataAuthorizationRateLimited {
            signer: "validator-1".into(),
            pending_authorizations: 1,
            max_pending_authorizations: 1,
        })
    );
}

#[test]
fn differing_update_under_a_pending_id_is_a_mismatch() {
    let mut registry = two_validators();
    registry
        .insert_pending_validator_set_metadata_authorization("validator-1".into(), update("u-1", vec![key("validator-3", 9)], &[], None), 0)
        .unwrap();
    assert_eq!(
        registry.insert_pending_validator_set_metadata_authorization("validator-2".into(), update("u-1", vec![key("validator-4", 9)], &[], None), 0),
        Err(NodeError::ValidatorSetMetadataUpdateMismatch)
    );
    assert_eq!(registry.pending_validator_set_metadata_authorization_count("u-1"), 1);
}

#[test]
fn expired_authorizations_are_pruned_and_refused() {
    let mut registry = two_validators();
    let u = || update("validator-set-update-1", vec![key("validator-3", 9)], &[], Some(1));
    assert_eq!(registry.insert_pending_validator_set_metadata_authorization("validator-1".into(), u(), 0), Ok(1));
    assert!(registry.prune_validator_set_metadata_authorizations(0).is_empty());
    let pruned = registry.prune_validator_set_metadata_authorizations(1);
    assert_eq!(pruned.len(), 1);
    assert_eq!(pruned[0].update_id, "validator-set-update-1");
    assert_eq!(pruned[0].signers, vec!["validator-1".to_string()]);
    assert_eq!(pruned[0].reason, "expired");
    assert_eq!(registry.pending_validator_set_metadata_authorization_count("validator-set-update-1"), 0);
    assert_eq!(
        registry.insert_pending_validator_set_metadata_authorization("validator-2".into(), u(), 1),
        Err(NodeError::ValidatorSetMetadataUpdateExpired {
            update_id: "validator-set-update-1".into(),
            expires_at_height: 1,
            current_height: 1,
        })
    );
    assert!(registry.trusted_validator_key("validator-3").is_none());
}

#[test]
fn pruning_reports_applied_updates_in_id_order() {
    let mut registry = two_validators();
    let b = || update("u-b", vec![key("validator-3", 9)], &[], None);
    let a = || update("u-a", vec![key("validator-4", 9)], &[], Some(5));
    registry.insert_pending_validator_set_metadata_authorization("validator-2".into(), b(), 0).unwrap();
    registry.insert_pending_validator_set_metadata_authorization("validator-1".into(), b(), 0).unwrap();
    registry.insert_pending_validator_set_metadata_authorization("validator-1".into(), a(), 0).unwrap();
    registry
        .apply_quorum_authorized_validator_set_metadata_update_with_quorum(vec![authorization("validator-1", b())], 1)
        .unwrap();
    let pruned = registry.prune_validator_set_metadata_authorizations(6);
    let summary: Vec<(String, Vec<String>, String)> =
        pruned.into_iter().map(|p| (p.update_id, p.signers, p.reason)).collect();
    assert_eq!(
        summary,
        vec![
            ("u-a".to_string(), vec!["validator-1".to_string()], "expired".to_string()),
            ("u-b".to_string(), vec!["validator-1".to_string(), "validator-2".to_string()], "already_applied".to_string()),
        ]
    );
}

#[test]
fn applying_a_pending_update_checks_quorum_and_removes_it() {
    let mut registry = two_validators();
    assert_eq!(
        registry.apply_pending_validator_set_metadata_update("missing", 1).err(),
        Some(NodeError::ValidatorSetMetadataUpdateNotFound("missing".into()))
    );
    let u = || update("u-1", vec![key("validator-3", 9)], &[], None);
    registry.insert_pending_validator_set_metadata_authorization("validator-2".into(), u(), 0).unwrap();
    assert_eq!(
        registry.apply_pending_validator_set_metadata_update("u-1", 2).err(),
        Some(NodeError::QuorumNotReached { accepted: 1, required: 2 })
    );
    registry.insert_pending_validator_set_metadata_authorization("validator-1".into(), u(), 0).unwrap();
    let signers = registry.apply_pending_validator_set_metadata_update("u-1", 2).unwrap();
    assert_eq!(signers, vec!["validator-1".to_string(), "validator-2".to_string()]);
    assert_eq!(registry.pending_validator_set_metadata_authorization_count("u-1"), 0);
    assert_eq!(registry.validator_key_count(), 3);
}

#[test]
fn default_pool_limits() {
    assert_eq!(DEFAULT_MAX_PENDING_VALIDATOR_SET_METADATA_UPDATES, 128);
}

#[test]
fn fresh_registry_is_empty_and_counts_pending_updates() {
    let mut registry = ValidatorSetRegistry::new();
    assert_eq!(registry.validator_key_count(), 0);
    assert_eq!(registry.pending_update_count(), 0);
    registry.trust_validator_key(key("validator-1", 1));
    registry.trust_validator_key(key("validator-2", 2));
    registry.trust_validator_key(key("validator-3", 3));
    registry
        .insert_pending_validator_set_metadata_authorization(
            "validator-1".to_string(),
            update("u1", vec![], &["validator-3"], None),
            0,
        )
        .unwrap();
    registry
        .insert_pending_validator_set_metadata_authorization(
            "validator-2".to_string(),
            update("u1", vec![], &["validator-3"], None),
            0,
        )
        .unwrap();
    registry
        .insert_pending_validator_set_metadata_authorization(
            "validator-1".to_string(),
            update("u2", vec![key("validator-4", 4)], &[], None),
            0,
        )
        .unwrap();
    assert_eq!(registry.pending_update_count(), 2);
}
