use detta_node::da_layout::{
    certificate_hash_for_manifest, check_payload_block_hash, check_share_set_matches_commitment,
    CommitmentMismatch,
    CommitmentRoots,
    block_da_sections, block_payload_plan, check_block_payload_metadata,
    check_certificate_matches_share_set, enough_shares_to_reconstruct, reconstruction_outcome,
    snapshot_payload_plan, ArgSummary, AspectShape, AvailabilityClaim, DaRecordRef,
    PayloadRecordKind, PayloadSectionSummary, ReceiptSummary, TxMethodClass, TxSummary,
};
use detta_node::ingest::{
    consensus_signing_commitment, ingest_plan, observe_peer, IngestStep, NetworkMessageKind,
    SignedMessageSummary,
};
use detta_node::node_error::{NetworkIngestOutcome, NodeError, SignatureDomain};
use detta_node::rate_limit::DaError;
use detta_node::sorted::IdSet;

fn tx(hash: &str, method: TxMethodClass, args: Vec<ArgSummary>) -> TxSummary {
    TxSummary { tx_hash: hash.into(), target: "Target".into(), method, args }
}

fn committed(hash: &str) -> ReceiptSummary {
    ReceiptSummary { tx_hash: hash.into(), committed: true }
}

fn text(s: &str) -> ArgSummary {
    ArgSummary::Text(s.into())
}

fn describe(sections: &[detta_node::da_layout::DaSectionPlan]) -> Vec<(String, Vec<String>)> {
    sections
        .iter()
        .map(|s| (s.namespace.clone(), s.records.iter().map(|r| format!("{r:?}")).collect()))
        .collect()
}

#[test]
fn block_payload_layout_puts_evidence_in_specialized_namespaces() {
    let txs = vec![
        tx("t0", TxMethodClass::Other, vec![]),
        tx("t1", TxMethodClass::BridgeMessage, vec![text("shard"), ArgSummary::Other, text("bridge-msg-da")]),
        tx("t2", TxMethodClass::Governance, vec![ArgSummary::Other]),
        tx("t3", TxMethodClass::SubmitPrice, vec![ArgSummary::Asset("ATOM".into())]),
        tx("t4", TxMethodClass::SubmitAspectModule, vec![text("AspectDA"), text("source")]),
        tx("t5", TxMethodClass::SubmitPrice, vec![]),
    ];
    let receipts = vec![committed("t0"), committed("t1"), committed("t2"), committed("t3"), committed("t4"), ReceiptSummary { tx_hash: "t5".into(), committed: false }];
    let sections = block_da_sections(&txs, &receipts).unwrap();
    let names: Vec<&str> = sections.iter().map(|s| s.namespace.as_str()).collect();
    assert_eq!(names, vec!["detta.block", "detta.tx", "detta.receipt", "detta.aspect", "detta.bridge", "detta.governance", "detta.oracle"]);
    let shown = describe(&sections);
    assert_eq!(shown[1].1.len(), 6);
    assert_eq!(shown[3].1, vec![format!("{:?}", DaRecordRef::AspectArtifact { transaction: 4, shape: AspectShape::FromSource })]);
    assert_eq!(shown[4].1, vec![format!("{:?}", DaRecordRef::BridgeProof { transaction: 1, message_id: "bridge-msg-da".into() })]);
    assert_eq!(shown[5].1, vec![format!("{:?}", DaRecordRef::GovernancePayload { transaction: 2, proposal_id: "t2".into() })]);
    assert_eq!(shown[6].1, vec![format!("{:?}", DaRecordRef::OracleEvidence { transaction: 3, asset: "ATOM".into() })]);
}

#[test]
fn empty_block_payload_has_only_the_header() {
    let sections = block_da_sections(&vec![], &vec![]).unwrap();
    assert_eq!(describe(&sections), vec![("detta.block".to_string(), vec!["BlockHeader".to_string()])]);
}

#[test]
fn uncommitted_or_mismatched_receipts_carry_no_evidence() {
    let txs = vec![tx("t0", TxMethodClass::Governance, vec![text("gov-1")]), tx("t1", TxMethodClass::Governance, vec![])];
    let receipts = vec![committed("other")];
    let sections = block_da_sections(&txs, &receipts).unwrap();
    let names: Vec<&str> = sections.iter().map(|s| s.namespace.as_str()).collect();
    assert_eq!(names, vec!["detta.block", "detta.tx", "detta.receipt"]);
}

#[test]
fn aspect_transactions_need_a_supported_argument_shape() {
    let txs = vec![tx("t0", TxMethodClass::SubmitAspectModule, vec![text("only-one")])];
    assert_eq!(
        block_da_sections(&txs, &vec![committed("t0")]).err(),
        Some(NodeError::DataAvailability(DaError::InvalidPayload(
            "committed SubmitAspectModule transaction has unsupported DA argument shape".into()
        )))
    );
    let roots: Vec<ArgSummary> = (0..9).map(|i| text(&format!("r{i}"))).collect();
    let sections = block_da_sections(&vec![tx("t0", TxMethodClass::SubmitAspectModule, roots)], &vec![committed("t0")]).unwrap();
    assert_eq!(format!("{:?}", sections[3].records[0]), format!("{:?}", DaRecordRef::AspectArtifact { transaction: 0, shape: AspectShape::FromRoots }));
}

fn section(ns: &str, records: Vec<PayloadRecordKind>) -> PayloadSectionSummary {
    PayloadSectionSummary { namespace: ns.into(), records }
}

#[test]
fn block_payload_plan_finds_header_transactions_and_receipts() {
    let sections = vec![
        section("detta.block", vec![PayloadRecordKind::BlockHeader]),
        section("detta.other", vec![PayloadRecordKind::Other]),
        section("detta.tx", vec![PayloadRecordKind::SignedTransaction, PayloadRecordKind::SignedTransaction]),
        section("detta.receipt", vec![PayloadRecordKind::Receipt]),
    ];
    let plan = block_payload_plan(&sections).unwrap();
    assert_eq!(plan.header, (0, 0));
    assert_eq!(plan.transactions, vec![(2, 0), (2, 1)]);
    assert_eq!(plan.receipts, vec![(3, 0)]);
}

#[test]
fn block_payload_plan_rejects_malformed_payloads() {
    let invalid = |m: &str| Some(NodeError::DataAvailability(DaError::InvalidPayload(m.into())));
    assert_eq!(block_payload_plan(&vec![]).err(), invalid("DA block payload has no block header"));
    assert_eq!(
        block_payload_plan(&vec![section("detta.block", vec![PayloadRecordKind::BlockHeader, PayloadRecordKind::BlockHeader])]).err(),
        invalid("DA block payload contains multiple block headers")
    );
    assert_eq!(
        block_payload_plan(&vec![section("detta.block", vec![PayloadRecordKind::Receipt])]).err(),
        invalid("DA block namespace contains a non-header record")
    );
    assert_eq!(
        block_payload_plan(&vec![section("detta.tx", vec![PayloadRecordKind::Receipt])]).err(),
        invalid("DA transaction namespace contains a non-transaction record")
    );
    assert_eq!(
        block_payload_plan(&vec![section("detta.receipt", vec![PayloadRecordKind::BlockHeader])]).err(),
        invalid("DA receipt namespace contains a non-receipt record")
    );
    assert_eq!(check_block_payload_metadata("c", 1, "p", "c", 1, "p"), Ok(()));
    assert_eq!(
        check_block_payload_metadata("c", 2, "p", "c", 1, "p").err(),
        invalid("DA block payload metadata does not match block header")
    );
}

fn chunk(index: u32, root: &str) -> PayloadRecordKind {
    PayloadRecordKind::SnapshotChunk { chunk_index: index, snapshot_root: root.into() }
}

fn manifest(root: &str) -> PayloadRecordKind {
    PayloadRecordKind::SnapshotChunkManifest { snapshot_root: root.into() }
}

#[test]
fn snapshot_payload_plan_checks_every_chunk_root() {
    let plan = snapshot_payload_plan(&vec![section("detta.snapshot", vec![manifest("root"), chunk(0, "root"), chunk(1, "root")])]).unwrap();
    assert_eq!(plan.manifest, (0, 0));
    assert_eq!(plan.chunks, vec![(0, 1), (0, 2)]);
    let invalid = |m: &str| Some(NodeError::DataAvailability(DaError::InvalidPayload(m.into())));
    assert_eq!(
        snapshot_payload_plan(&vec![section("detta.snapshot", vec![chunk(7, "wrong"), manifest("root"), chunk(3, "wrong"), chunk(7, "root")])]).err(),
        invalid("DA snapshot chunk 3 root does not match manifest root")
    );
    assert_eq!(snapshot_payload_plan(&vec![section("detta.snapshot", vec![chunk(0, "root")])]).err(), invalid("DA snapshot payload has no manifest"));
    assert_eq!(
        snapshot_payload_plan(&vec![section("detta.snapshot", vec![manifest("a"), manifest("a")])]).err(),
        invalid("DA snapshot payload contains multiple manifests")
    );
    assert_eq!(
        snapshot_payload_plan(&vec![section("detta.snapshot", vec![PayloadRecordKind::Receipt])]).err(),
        invalid("DA snapshot namespace contains a non-snapshot record")
    );
}

#[test]
fn certificates_must_cover_the_share_set() {
    let claim = |h: u64| AvailabilityClaim { chain_id: "c".into(), height: h, block_hash: "b".into(), manifest_hash: "m".into(), share_root: "s".into() };
    assert_eq!(check_certificate_matches_share_set(&claim(1), &claim(1)), Ok(()));
    assert_eq!(
        check_certificate_matches_share_set(&claim(1), &claim(2)),
        Err(NodeError::DataAvailability(DaError::InvalidAvailabilityCertificate("certificate does not match DA share set".into())))
    );
    assert!(enough_shares_to_reconstruct(3, 3));
    assert!(!enough_shares_to_reconstruct(2, 3));
    assert_eq!(reconstruction_outcome(Ok(())), Ok(true));
    assert_eq!(reconstruction_outcome(Err(DaError::InsufficientShares { required: 3, actual: 2 })), Ok(false));
    assert_eq!(reconstruction_outcome(Err(DaError::InvalidChunkSize)), Err(NodeError::DataAvailability(DaError::InvalidChunkSize)));
}

#[test]
fn each_message_kind_has_its_ingest_step() {
    assert_eq!(ingest_plan(NetworkMessageKind::Transaction), (IngestStep::SubmitTransaction, Some(NetworkIngestOutcome::TransactionAccepted)));
    assert_eq!(ingest_plan(NetworkMessageKind::DaShare), (IngestStep::StoreDaShare, Some(NetworkIngestOutcome::DataAvailabilityStored)));
    assert_eq!(ingest_plan(NetworkMessageKind::ValidatorSetMetadataUpdate), (IngestStep::Refuse, None));
    assert_eq!(ingest_plan(NetworkMessageKind::SignedValidator), (IngestStep::VerifySigned, None));
    assert_eq!(ingest_plan(NetworkMessageKind::PeerHello), (IngestStep::Acknowledge, Some(NetworkIngestOutcome::IgnoredControlMessage)));
}

#[test]
fn peers_are_observed_except_self() {
    let mut peers = IdSet::new();
    observe_peer(&mut peers, "validator-1", "validator-2");
    observe_peer(&mut peers, "validator-1", "validator-1");
    observe_peer(&mut peers, "validator-1", "validator-2");
    assert_eq!(peers.to_vec(), vec!["validator-2".to_string()]);
    assert_eq!(peers.len(), 1);
}

#[test]
fn signing_commitments_cover_each_consensus_message() {
    let commitment = consensus_signing_commitment(
        "validator-1",
        &SignedMessageSummary::DaAvailabilityVote { validator_id: "validator-1".into(), height: 3, block_hash: "b".into(), manifest_hash: "m".into() },
    )
    .unwrap()
    .unwrap();
    assert_eq!(commitment.domain, SignatureDomain::DaAvailabilityVote);
    assert_eq!(commitment.height, 3);
    assert_eq!(commitment.block_hash, "b:m");
    assert_eq!(
        consensus_signing_commitment("validator-1", &SignedMessageSummary::BlockProposal { proposer: "validator-2".into(), height: 1, block_hash: "b".into() }).err(),
        Some(NodeError::ConsensusMessageSignerMismatch { expected: "validator-1".into(), actual: "validator-2".into() })
    );
    assert!(consensus_signing_commitment("validator-1", &SignedMessageSummary::Other).unwrap().is_none());
    let cert = consensus_signing_commitment("validator-1", &SignedMessageSummary::FinalityCertificate { height: 9, block_hash: "h".into() }).unwrap().unwrap();
    assert_eq!((cert.domain, cert.height, cert.block_hash), (SignatureDomain::FinalityCertificate, 9, "h".to_string()));
}

fn roots(manifest: &str, payload: &str, share: &str) -> CommitmentRoots {
    CommitmentRoots {
        manifest_hash: manifest.to_string(),
        payload_hash: payload.to_string(),
        share_root: share.to_string(),
    }
}

#[test]
fn stored_share_sets_must_match_the_block_commitment_in_order() {
    let committed = roots("m", "p", "s");
    assert_eq!(check_share_set_matches_commitment(&committed, &roots("m", "p", "s")), Ok(()));
    assert_eq!(
        check_share_set_matches_commitment(&committed, &roots("x", "y", "z")),
        Err(CommitmentMismatch::ManifestHash { expected: "m".to_string(), actual: "x".to_string() })
    );
    assert_eq!(
        check_share_set_matches_commitment(&committed, &roots("m", "y", "z")),
        Err(CommitmentMismatch::PayloadHash { expected: "p".to_string(), actual: "y".to_string() })
    );
    assert_eq!(
        check_share_set_matches_commitment(&committed, &roots("m", "p", "z")),
        Err(CommitmentMismatch::ShareRoot { expected: "s".to_string(), actual: "z".to_string() })
    );
}

#[test]
fn certificate_hash_prefers_the_first_committing_block_then_the_index() {
    let commitments = vec![
        ("m1".to_string(), None),
        ("m2".to_string(), Some("c2".to_string())),
        ("m1".to_string(), Some("c1-late".to_string())),
        ("m1".to_string(), Some("c1-later".to_string())),
    ];
    assert_eq!(
        certificate_hash_for_manifest(&commitments, "m1", Some("indexed".to_string())),
        Some("c1-late".to_string())
    );
    assert_eq!(
        certificate_hash_for_manifest(&commitments, "m3", Some("indexed".to_string())),
        Some("indexed".to_string())
    );
    assert_eq!(certificate_hash_for_manifest(&commitments, "m3", None), None);
}

#[test]
fn rebuilt_blocks_must_hash_as_the_manifest_says() {
    assert!(check_payload_block_hash("h", "h").is_ok());
    assert_eq!(
        check_payload_block_hash("h", "g"),
        Err(NodeError::DataAvailability(DaError::InvalidPayload(
            "DA block payload does not match manifest block hash".to_string()
        )))
    );
}

#[test]
fn da_payload_includes_specialized_defi_evidence_namespaces() {
    let texts = |values: &[&str]| values.iter().map(|v| text(v)).collect::<Vec<_>>();
    let txs = vec![
        TxSummary {
            tx_hash: "tx-da-aspect".into(),
            target: "Factory".into(),
            method: TxMethodClass::SubmitAspectModule,
            args: texts(&[
                "AspectDA",
                "NormalizedBalanceFirst.v1",
                "source-root-da",
                "ir-root-da",
                "abi-root-da",
                "policy-root-da",
                "storage-schema-root-da",
                "registry-schema-root-da",
                "invariant-root-da",
            ]),
        },
        TxSummary {
            tx_hash: "tx-da-bridge".into(),
            target: "BridgeA".into(),
            method: TxMethodClass::BridgeMessage,
            args: vec![
                text("ShardB"),
                text("BridgeB"),
                text("bridge-msg-da"),
                ArgSummary::Other,
                ArgSummary::Asset("USDC".into()),
                ArgSummary::Other,
            ],
        },
        TxSummary {
            tx_hash: "tx-da-governance".into(),
            target: "GovA".into(),
            method: TxMethodClass::Governance,
            args: texts(&["upgrade-da", "code-root-da"]),
        },
        TxSummary {
            tx_hash: "tx-da-oracle".into(),
            target: "OracleA".into(),
            method: TxMethodClass::SubmitPrice,
            args: vec![ArgSummary::Asset("ATOM".into()), ArgSummary::Other, ArgSummary::Other],
        },
    ];
    let receipts = vec![
        committed("tx-da-aspect"),
        committed("tx-da-bridge"),
        committed("tx-da-governance"),
        committed("tx-da-oracle"),
    ];
    let sections = block_da_sections(&txs, &receipts).unwrap();
    // The payload keeps its sections ordered by namespace.
    let mut namespaces: Vec<&str> = sections.iter().map(|s| s.namespace.as_str()).collect();
    namespaces.sort();
    assert_eq!(
        namespaces,
        vec![
            "detta.aspect",
            "detta.block",
            "detta.bridge",
            "detta.governance",
            "detta.oracle",
            "detta.receipt",
            "detta.tx",
        ]
    );
    let records = |namespace: &str| {
        sections
            .iter()
            .find(|section| section.namespace == namespace)
            .map(|section| section.records.iter().map(|r| format!("{r:?}")).collect::<Vec<_>>())
            .unwrap()
    };
    assert_eq!(
        records("detta.aspect"),
        vec![format!("{:?}", DaRecordRef::AspectArtifact { transaction: 0, shape: AspectShape::FromRoots })]
    );
    assert_eq!(
        records("detta.bridge"),
        vec![format!("{:?}", DaRecordRef::BridgeProof { transaction: 1, message_id: "bridge-msg-da".into() })]
    );
    assert_eq!(
        records("detta.governance"),
        vec![format!("{:?}", DaRecordRef::GovernancePayload { transaction: 2, proposal_id: "upgrade-da".into() })]
    );
    assert_eq!(
        records("detta.oracle"),
        vec![format!("{:?}", DaRecordRef::OracleEvidence { transaction: 3, asset: "ATOM".into() })]
    );
}
