//! The node's errors, the stable RPC error code of each, and the checks
//! that guard consensus signing.
use crate::rate_limit::DaError;
use crate::text::{concat_str, str_eq};
use vstd::prelude::*;

verus! {

/// Why the mempool refused a transaction.
#[derive(Clone, Copy, Debug, PartialEq, Eq, Structural)]
pub enum MempoolErrorKind {
    ChainMismatch,
    InvalidSignature,
    UnauthorizedSigner,
    TransactionExpired,
    DuplicateTransaction,
    NonceAlreadyUsed,
    InsufficientBudget,
    TransactionTooLarge,
    PoolFull,
    SenderPendingLimitExceeded,
    Other,
}

/// What a validator signature commits to.
#[derive(Clone, Copy, Debug, PartialEq, Eq, Structural)]
pub enum SignatureDomain {
    BlockProposal,
    Vote,
    DaAvailabilityVote,
    FinalityCertificate,
    DaAvailabilityCertificate,
}

/// Where an error that this node did not raise itself came from.
#[derive(Clone, Copy, Debug, PartialEq, Eq, Structural)]
pub enum ExternalErrorSource {
    Rpc,
    Storage,
    Block,
    Network,
    Consensus,
    SnapshotSync,
    UnexpectedMessage,
}

/// Errors of the persistent validator node.
#[derive(Clone, Debug, PartialEq, Eq)]
pub enum NodeError {
    External(ExternalErrorSource),
    Mempool(MempoolErrorKind),
    Signature,
    DataAvailability(DaError),
    QuorumNotReached { accepted: usize, required: usize },
    ValidatorKeyNotFound(String),
    SnapshotRootNotFound { requested: String, available: String },
    SigningKeyMismatch { expected: String, actual: String },
    ConsensusMessageSignerMismatch { expected: String, actual: String },
    BlockProposerMismatch { expected: String, actual: String },
    DuplicateValidatorKey(String),
    ValidatorMetadataKeyNotFound(String),
    ValidatorSetMetadataUpdateAlreadyApplied(String),
    ValidatorSetMetadataUpdateMismatch,
    ValidatorSetMetadataUpdateNotFound(String),
    ValidatorSetMetadataUpdateExpired {
        update_id: String,
        expires_at_height: u64,
        current_height: u64,
    },
    ValidatorSetMetadataAuthorizationPoolFull { pending_updates: usize, max_pending_updates: usize },
    ValidatorSetMetadataAuthorizationRateLimited {
        signer: String,
        pending_authorizations: usize,
        max_pending_authorizations: usize,
    },
    ValidatorSetChainMismatch { expected: String, actual: String },
    UnsignedValidatorSetMetadataUpdate,
    ConsensusSigningConflict {
        validator_id: String,
        domain: SignatureDomain,
        height: u64,
        existing_block_hash: String,
        attempted_block_hash: String,
    },
    BlockProposalRejected(String),
}

/// The stable RPC error code reported for each error.
pub open spec fn error_code_spec(error: NodeError) -> Seq<char> {
    match error {
        NodeError::ValidatorSetMetadataUpdateAlreadyApplied(_) => "node.validator_set_metadata_update_already_applied"@,
        NodeError::ValidatorSetMetadataUpdateMismatch => "node.validator_set_metadata_update_mismatch"@,
        NodeError::ValidatorSetMetadataUpdateNotFound(_) => "node.validator_set_metadata_update_not_found"@,
        NodeError::ValidatorSetMetadataUpdateExpired { .. } => "node.validator_set_metadata_update_expired"@,
        NodeError::ValidatorSetMetadataAuthorizationPoolFull { .. } => "node.validator_set_metadata_authorization_pool_full"@,
        NodeError::ValidatorSetMetadataAuthorizationRateLimited { .. } => "node.validator_set_metadata_authorization_rate_limited"@,
        NodeError::UnsignedValidatorSetMetadataUpdate => "node.unsigned_validator_set_metadata_update"@,
        NodeError::ConsensusSigningConflict { .. } => "node.consensus_signing_conflict"@,
        NodeError::ConsensusMessageSignerMismatch { .. } => "node.consensus_message_signer_mismatch"@,
        NodeError::Signature => "node.validator_signature_error"@,
        NodeError::ValidatorKeyNotFound(_) => "node.validator_key_not_found"@,
        NodeError::QuorumNotReached { .. } => "node.validator_quorum_not_reached"@,
        NodeError::DataAvailability(_) => "node.data_availability_error"@,
        NodeError::Mempool(kind) => match kind {
            MempoolErrorKind::ChainMismatch => "mempool.chain_mismatch"@,
            MempoolErrorKind::InvalidSignature => "mempool.invalid_signature"@,
            MempoolErrorKind::UnauthorizedSigner => "mempool.unauthorized_signer"@,
            MempoolErrorKind::TransactionExpired => "mempool.transaction_expired"@,
            MempoolErrorKind::DuplicateTransaction => "mempool.duplicate_transaction"@,
            MempoolErrorKind::NonceAlreadyUsed => "mempool.nonce_already_used"@,
            MempoolErrorKind::InsufficientBudget => "mempool.insufficient_budget"@,
            MempoolErrorKind::TransactionTooLarge => "mempool.transaction_too_large"@,
            MempoolErrorKind::PoolFull => "mempool.pool_full"@,
            MempoolErrorKind::SenderPendingLimitExceeded => "mempool.sender_pending_limit_exceeded"@,
            MempoolErrorKind::Other => "node.error"@,
        },
        _ => "node.error"@,
    }
}

/// The stable RPC error code reported for `error`.
pub fn node_rpc_error_code(error: &NodeError) -> (code: &'static str)
    ensures
        code@ == error_code_spec(*error),
{
    match error {
        NodeError::ValidatorSetMetadataUpdateAlreadyApplied(_) => {
            "node.validator_set_metadata_update_already_applied"
        },
        NodeError::ValidatorSetMetadataUpdateMismatch => {
            "node.validator_set_metadata_update_mismatch"
        },
        NodeError::ValidatorSetMetadataUpdateNotFound(_) => {
            "node.validator_set_metadata_update_not_found"
        },
        NodeError::ValidatorSetMetadataUpdateExpired { .. } => {
            "node.validator_set_metadata_update_expired"
        },
        NodeError::ValidatorSetMetadataAuthorizationPoolFull { .. } => {
            "node.validator_set_metadata_authorization_pool_full"
        },
        NodeError::ValidatorSetMetadataAuthorizationRateLimited { .. } => {
            "node.validator_set_metadata_authorization_rate_limited"
        },
        NodeError::UnsignedValidatorSetMetadataUpdate => {
            "node.unsigned_validator_set_metadata_update"
        },
        NodeError::ConsensusSigningConflict { .. } => "node.consensus_signing_conflict",
        NodeError::ConsensusMessageSignerMismatch { .. } => {
            "node.consensus_message_signer_mismatch"
        },
        NodeError::Signature => "node.validator_signature_error",
        NodeError::ValidatorKeyNotFound(_) => "node.validator_key_not_found",
        NodeError::QuorumNotReached { .. } => "node.validator_quorum_not_reached",
        NodeError::DataAvailability(_) => "node.data_availability_error",
        NodeError::Mempool(kind) => match kind {
            MempoolErrorKind::ChainMismatch => "mempool.chain_mismatch",
            MempoolErrorKind::InvalidSignature => "mempool.invalid_signature",
            MempoolErrorKind::UnauthorizedSigner => "mempool.unauthorized_signer",
            MempoolErrorKind::TransactionExpired => "mempool.transaction_expired",
            MempoolErrorKind::DuplicateTransaction => "mempool.duplicate_transaction",
            MempoolErrorKind::NonceAlreadyUsed => "mempool.nonce_already_used",
            MempoolErrorKind::InsufficientBudget => "mempool.insufficient_budget",
            MempoolErrorKind::TransactionTooLarge => "mempool.transaction_too_large",
            MempoolErrorKind::PoolFull => "mempool.pool_full",
            MempoolErrorKind::SenderPendingLimitExceeded => "mempool.sender_pending_limit_exceeded",
            MempoolErrorKind::Other => "node.error",
        },
        _ => "node.error",
    }
}

/// What the node did with an envelope it received from the network.
#[derive(Clone, Copy, Debug, PartialEq, Eq, Structural)]
pub enum NetworkIngestOutcome {
    TransactionAccepted,
    BlockImported,
    VoteReceived,
    FinalityCertificateReceived,
    EquivocationEvidencePersisted,
    ValidatorSetMetadataUpdated,
    ValidatorSetMetadataAuthorizationStored,
    DataAvailabilityStored,
    IgnoredControlMessage,
}

/// The outcome of an authorization that reached `authorization_count`
/// signers under quorum `quorum`: applied at quorum, otherwise stored.
pub fn authorization_outcome(authorization_count: usize, quorum: usize) -> (outcome:
    NetworkIngestOutcome)
    ensures
        authorization_count >= quorum ==> outcome == NetworkIngestOutcome::ValidatorSetMetadataUpdated,
        authorization_count < quorum ==> outcome
            == NetworkIngestOutcome::ValidatorSetMetadataAuthorizationStored,
{
    if authorization_count >= quorum {
        NetworkIngestOutcome::ValidatorSetMetadataUpdated
    } else {
        NetworkIngestOutcome::ValidatorSetMetadataAuthorizationStored
    }
}

/// Refuses a consensus message whose claimed author is not this validator.
pub fn check_message_signer(validator_id: &str, claimed: &str) -> (result: Result<(), NodeError>)
    ensures
        claimed@ == validator_id@ ==> result is Ok,
        claimed@ != validator_id@ ==> (result matches Err(
            NodeError::ConsensusMessageSignerMismatch { expected, actual },
        ) && expected@ == validator_id@ && actual@ == claimed@),
{
    if str_eq(claimed, validator_id) {
        Ok(())
    } else {
        Err(
            NodeError::ConsensusMessageSignerMismatch {
                expected: validator_id.to_owned(),
                actual: claimed.to_owned(),
            },
        )
    }
}

/// The commitment a data-availability vote or certificate signs:
/// `block_hash:manifest_hash`.
pub fn da_signing_commitment(block_hash: &str, manifest_hash: &str) -> (commitment: String)
    ensures
        commitment@ == block_hash@ + ":"@ + manifest_hash@,
{
    let mut out = concat_str(block_hash, ":");
    out.append(manifest_hash);
    out
}

/// Refuses to sign a second, different block hash for a domain and height
/// that this validator has already signed. `existing` is the hash already
/// recorded for that slot, if any.
pub fn check_signing_conflict(
    validator_id: &str,
    domain: SignatureDomain,
    height: u64,
    existing: Option<&str>,
    attempted: &str,
) -> (result: Result<(), NodeError>)
    ensures
        match existing {
            None => result is Ok,
            Some(e) => if e@ == attempted@ {
                result is Ok
            } else {
                result matches Err(
                    NodeError::ConsensusSigningConflict {
                        validator_id: v,
                        domain: d,
                        height: h,
                        existing_block_hash: eh,
                        attempted_block_hash: ah,
                    },
                ) && v@ == validator_id@ && d == domain && h == height && eh@ == e@ && ah@
                    == attempted@
            },
        },
{
    match existing {
        None => Ok(()),
        Some(e) => {
            if str_eq(e, attempted) {
                Ok(())
            } else {
                Err(
                    NodeError::ConsensusSigningConflict {
                        validator_id: validator_id.to_owned(),
                        domain,
                        height,
                        existing_block_hash: e.to_owned(),
                        attempted_block_hash: attempted.to_owned(),
                    },
                )
            }
        },
    }
}

/// Refuses to sign with a key that belongs to another validator.
pub fn check_signing_key(validator_id: &str, key_owner: &str) -> (result: Result<(), NodeError>)
    ensures
        key_owner@ == validator_id@ ==> result is Ok,
        key_owner@ != validator_id@ ==> (result matches Err(
            NodeError::SigningKeyMismatch { expected, actual },
        ) && expected@ == validator_id@ && actual@ == key_owner@),
{
    if str_eq(key_owner, validator_id) {
        Ok(())
    } else {
        Err(NodeError::SigningKeyMismatch { expected: validator_id.to_owned(), actual: key_owner.to_owned() })
    }
}

/// Refuses to propose a block that names another validator as proposer.
pub fn check_block_proposer(validator_id: &str, proposer: &str) -> (result: Result<(), NodeError>)
    ensures
        proposer@ == validator_id@ ==> result is Ok,
        proposer@ != validator_id@ ==> (result matches Err(
            NodeError::BlockProposerMismatch { expected, actual },
        ) && expected@ == validator_id@ && actual@ == proposer@),
{
    if str_eq(proposer, validator_id) {
        Ok(())
    } else {
        Err(NodeError::BlockProposerMismatch { expected: validator_id.to_owned(), actual: proposer.to_owned() })
    }
}

} // verus!
