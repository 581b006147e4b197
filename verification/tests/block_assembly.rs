use detta_node::block_selection::{block_order, select_block_transactions, PendingTxSummary};
use detta_node::node_error::NodeError;
use detta_node::serving::{
    check_snapshot_root, coding_check, coding_fraud_verdict, receipt_failure_counts,
    share_presence, snapshot_chunk_window, CodingCheck, FraudProofOutcome,
};

fn tx(sender: &str, nonce: u64, hash: &str, units: u64) -> PendingTxSummary {
    PendingTxSummary {
        sender: sender.to_string(),
        nonce,
        tx_hash: hash.to_string(),
        resource_units: units,
    }
}

#[test]
fn pending_transactions_are_ordered_by_sender_nonce_and_hash() {
    let txs = vec![
        tx("bob", 1, "h3", 1),
        tx("alice", 2, "h2", 1),
        tx("alice", 1, "h9", 1),
        tx("alice", 1, "h1", 1),
    ];
    assert_eq!(block_order(&txs), vec![3, 2, 1, 0]);
}

#[test]
fn equal_keys_keep_their_pending_order() {
    let txs = vec![tx("carol", 4, "same", 1), tx("carol", 4, "same", 2)];
    assert_eq!(block_order(&txs), vec![0, 1]);
}

#[test]
fn selection_skips_transactions_over_the_budget_and_continues() {
    let txs = vec![
        tx("a", 0, "x", 6),
        tx("b", 0, "y", 5),
        tx("c", 0, "z", 4),
    ];
    let (order, taken) = select_block_transactions(&txs, 10);
    assert_eq!(order, vec![0, 1, 2]);
    // 6 fits, 6 + 5 does not, 6 + 4 fits.
    assert_eq!(taken, vec![0, 2]);
}

#[test]
fn selection_saturates_instead_of_overflowing() {
    let txs = vec![tx("a", 0, "x", u64::MAX), tx("b", 0, "y", 1)];
    let (_, taken) = select_block_transactions(&txs, u64::MAX);
    // The first fills the budget; the second saturates at the limit and is
    // still within it.
    assert_eq!(taken, vec![0, 1]);
    let (_, taken) = select_block_transactions(&txs, u64::MAX - 1);
    assert_eq!(taken, vec![1]);
}

#[test]
fn empty_pool_selects_nothing() {
    let (order, taken) = select_block_transactions(&Vec::new(), 100);
    assert!(order.is_empty());
    assert!(taken.is_empty());
}

#[test]
fn snapshot_root_must_match_the_stored_one() {
    assert!(check_snapshot_root("root-a", "root-a").is_ok());
    match check_snapshot_root("root-b", "root-a") {
        Err(NodeError::SnapshotRootNotFound { requested, available }) => {
            assert_eq!(requested, "root-b");
            assert_eq!(available, "root-a");
        }
        other => panic!("unexpected {other:?}"),
    }
}

#[test]
fn snapshot_chunk_window_is_clipped_to_the_chunk_count() {
    assert_eq!(snapshot_chunk_window(1, 2, 5), (1, 3));
    assert_eq!(snapshot_chunk_window(4, 10, 5), (4, 5));
    assert_eq!(snapshot_chunk_window(9, 1, 5), (5, 5));
    assert_eq!(snapshot_chunk_window(u32::MAX, u32::MAX, 3), (3, 3));
}

#[test]
fn receipt_failures_are_counted() {
    assert_eq!(receipt_failure_counts(&[true, false, false, true]), (2, 4));
    assert_eq!(receipt_failure_counts(&[]), (0, 0));
}

#[test]
fn share_presence_lists_missing_indices_in_order() {
    let (count, missing) = share_presence(&vec![true, false, true, false, false]);
    assert_eq!(count, 2);
    assert_eq!(missing, vec![1, 3, 4]);
    let (count, missing) = share_presence(&Vec::new());
    assert_eq!(count, 0);
    assert!(missing.is_empty());
}

#[test]
fn coding_check_needs_the_manifest_and_every_data_share() {
    assert!(matches!(coding_check(false, 4, 4), CodingCheck::ManifestMissing));
    assert!(matches!(coding_check(true, 4, 4), CodingCheck::Evaluate));
    assert!(matches!(coding_check(true, 4, 9), CodingCheck::Evaluate));
    match coding_check(true, 4, 3) {
        CodingCheck::TooFewDataShares(detail) => assert_eq!(
            detail,
            "3 of 4 data shares available; cannot evaluate coding correctness"
        ),
        other => panic!("unexpected {other:?}"),
    }
}

#[test]
fn coding_fraud_verdict_reports_each_outcome() {
    assert_eq!(
        coding_fraud_verdict(&FraudProofOutcome::ProofBuilt),
        (true, "manifest does not commit a valid encoding of its payload".to_string())
    );
    assert_eq!(
        coding_fraud_verdict(&FraudProofOutcome::ValidEncoding),
        (false, "manifest commits a valid encoding of its payload".to_string())
    );
    assert_eq!(
        coding_fraud_verdict(&FraudProofOutcome::NotEvaluated("InsufficientShares".into())),
        (false, "could not evaluate coding correctness from local shares: InsufficientShares".to_string())
    );
}
