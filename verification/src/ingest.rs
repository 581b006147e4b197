//! How the node handles what arrives from the network: which step each
//! kind of message calls for, which peers it has heard from, and what a
//! consensus signature commits the validator to.
use crate::node_error::{check_message_signer, da_signing_commitment, NodeError, NetworkIngestOutcome, SignatureDomain};
use crate::sorted::IdSet;
use crate::text::{owned, str_eq};
use vstd::prelude::*;

verus! {

/// The kinds of network message.
#[derive(Clone, Copy, Debug, PartialEq, Eq, Structural)]
pub enum NetworkMessageKind {
    Transaction,
    Block,
    Vote,
    FinalityCertificate,
    EquivocationEvidence,
    DaManifest,
    DaShare,
    DaAvailabilityCertificate,
    DaShareChallenge,
    DaShareChallengeResponse,
    DaChallengeEvidence,
    ValidatorSetMetadataUpdate,
    SignedValidator,
    ValidatorSetUpdate,
    StateSnapshot,
    PeerHello,
    SnapshotChunkRequest,
    SnapshotChunkManifest,
    SnapshotChunk,
    DaShareRequest,
    DaAvailabilityVote,
}

/// The step that ingesting a message calls for.
#[derive(Clone, Copy, Debug, PartialEq, Eq, Structural)]
pub enum IngestStep {
    /// Admit the transaction to the mempool.
    SubmitTransaction,
    /// Import the block.
    ImportBlock,
    /// Persist the equivocation evidence.
    PersistEquivocationEvidence,
    /// Store the DA manifest.
    StoreDaManifest,
    /// Store the DA share.
    StoreDaShare,
    /// Store the DA availability certificate.
    StoreDaCertificate,
    /// Persist the DA share challenge.
    PersistDaShareChallenge,
    /// Persist the DA share challenge response.
    PersistDaShareChallengeResponse,
    /// Persist the DA challenge evidence.
    PersistDaChallengeEvidence,
    /// Verify the signed message and ingest what it carries.
    VerifySigned,
    /// Nothing to do but report the outcome.
    Acknowledge,
    /// Refuse the message.
    Refuse,
}

/// The step for a message of kind `kind`, and the outcome reported once
/// the step succeeds (none where the step decides it).
pub open spec fn ingest_plan_spec(kind: NetworkMessageKind) -> (IngestStep, Option<NetworkIngestOutcome>) {
    match kind {
        NetworkMessageKind::Transaction => (
            IngestStep::SubmitTransaction,
            Some(NetworkIngestOutcome::TransactionAccepted),
        ),
        NetworkMessageKind::Block => (IngestStep::ImportBlock, Some(NetworkIngestOutcome::BlockImported)),
        NetworkMessageKind::Vote => (IngestStep::Acknowledge, Some(NetworkIngestOutcome::VoteReceived)),
        NetworkMessageKind::FinalityCertificate => (
            IngestStep::Acknowledge,
            Some(NetworkIngestOutcome::FinalityCertificateReceived),
        ),
        NetworkMessageKind::EquivocationEvidence => (
            IngestStep::PersistEquivocationEvidence,
            Some(NetworkIngestOutcome::EquivocationEvidencePersisted),
        ),
        NetworkMessageKind::DaManifest => (
            IngestStep::StoreDaManifest,
            Some(NetworkIngestOutcome::DataAvailabilityStored),
        ),
        NetworkMessageKind::DaShare => (
            IngestStep::StoreDaShare,
            Some(NetworkIngestOutcome::DataAvailabilityStored),
        ),
        NetworkMessageKind::DaAvailabilityCertificate => (
            IngestStep::StoreDaCertificate,
            Some(NetworkIngestOutcome::DataAvailabilityStored),
        ),
        NetworkMessageKind::DaShareChallenge => (
            IngestStep::PersistDaShareChallenge,
            Some(NetworkIngestOutcome::DataAvailabilityStored),
        ),
        NetworkMessageKind::DaShareChallengeResponse => (
            IngestStep::PersistDaShareChallengeResponse,
            Some(NetworkIngestOutcome::DataAvailabilityStored),
        ),
        NetworkMessageKind::DaChallengeEvidence => (
            IngestStep::PersistDaChallengeEvidence,
            Some(NetworkIngestOutcome::DataAvailabilityStored),
        ),
        NetworkMessageKind::ValidatorSetMetadataUpdate => (IngestStep::Refuse, None),
        NetworkMessageKind::SignedValidator => (IngestStep::VerifySigned, None),
        _ => (IngestStep::Acknowledge, Some(NetworkIngestOutcome::IgnoredControlMessage)),
    }
}

/// Control messages: acknowledged and otherwise ignored by ingestion.
pub open spec fn is_control_kind(kind: NetworkMessageKind) -> bool {
    ||| kind is ValidatorSetUpdate
    ||| kind is StateSnapshot
    ||| kind is PeerHello
    ||| kind is SnapshotChunkRequest
    ||| kind is SnapshotChunkManifest
    ||| kind is SnapshotChunk
    ||| kind is DaShareRequest
    ||| kind is DaAvailabilityVote
}

/// Data-availability messages that ingestion stores.
pub open spec fn is_stored_da_kind(kind: NetworkMessageKind) -> bool {
    ||| kind is DaManifest
    ||| kind is DaShare
    ||| kind is DaAvailabilityCertificate
    ||| kind is DaShareChallenge
    ||| kind is DaShareChallengeResponse
    ||| kind is DaChallengeEvidence
}

/// Ingestion planning, message kind by message kind: a transaction is
/// submitted and a block imported, and those are the only kinds that are;
/// each data-availability kind is stored with its own step and reported as
/// stored; evidence is persisted; votes and certificates are acknowledged
/// as received; an unsigned validator-set update is refused and a signed
/// message verified, the two kinds whose outcome the plan leaves open; and
/// exactly the control kinds are acknowledged as ignored.
pub proof fn ingest_plan_by_kind(kind: NetworkMessageKind)
    ensures
        (ingest_plan_spec(kind).0 == IngestStep::SubmitTransaction) <==> kind is Transaction,
        (ingest_plan_spec(kind).1 == Some(NetworkIngestOutcome::TransactionAccepted))
            <==> kind is Transaction,
        (ingest_plan_spec(kind).0 == IngestStep::ImportBlock) <==> kind is Block,
        (ingest_plan_spec(kind).1 == Some(NetworkIngestOutcome::BlockImported)) <==> kind is Block,
        (ingest_plan_spec(kind).1 == Some(NetworkIngestOutcome::VoteReceived)) <==> kind is Vote,
        (ingest_plan_spec(kind).1 == Some(NetworkIngestOutcome::FinalityCertificateReceived))
            <==> kind is FinalityCertificate,
        (ingest_plan_spec(kind).0 == IngestStep::PersistEquivocationEvidence)
            <==> kind is EquivocationEvidence,
        (ingest_plan_spec(kind).1 == Some(NetworkIngestOutcome::EquivocationEvidencePersisted))
            <==> kind is EquivocationEvidence,
        (ingest_plan_spec(kind).0 == IngestStep::StoreDaManifest) <==> kind is DaManifest,
        (ingest_plan_spec(kind).0 == IngestStep::StoreDaShare) <==> kind is DaShare,
        (ingest_plan_spec(kind).0 == IngestStep::StoreDaCertificate)
            <==> kind is DaAvailabilityCertificate,
        (ingest_plan_spec(kind).0 == IngestStep::PersistDaShareChallenge) <==> kind is DaShareChallenge,
        (ingest_plan_spec(kind).0 == IngestStep::PersistDaShareChallengeResponse)
            <==> kind is DaShareChallengeResponse,
        (ingest_plan_spec(kind).0 == IngestStep::PersistDaChallengeEvidence)
            <==> kind is DaChallengeEvidence,
        (ingest_plan_spec(kind).1 == Some(NetworkIngestOutcome::DataAvailabilityStored))
            <==> is_stored_da_kind(kind),
        (ingest_plan_spec(kind).0 == IngestStep::Refuse) <==> kind is ValidatorSetMetadataUpdate,
        (ingest_plan_spec(kind).0 == IngestStep::VerifySigned) <==> kind is SignedValidator,
        ingest_plan_spec(kind).1 is None <==> (kind is ValidatorSetMetadataUpdate
            || kind is SignedValidator),
        (ingest_plan_spec(kind).1 == Some(NetworkIngestOutcome::IgnoredControlMessage))
            <==> is_control_kind(kind),
        (ingest_plan_spec(kind).0 == IngestStep::Acknowledge) <==> (kind is Vote
            || kind is FinalityCertificate || is_control_kind(kind)),
        ingest_plan_spec(kind).1 != Some(NetworkIngestOutcome::ValidatorSetMetadataUpdated),
        ingest_plan_spec(kind).1 != Some(NetworkIngestOutcome::ValidatorSetMetadataAuthorizationStored),
{
}

/// The step that a message of kind `kind` calls for, and the outcome it
/// reports once the step succeeds. An unsigned validator-set update is
/// refused with `UnsignedValidatorSetMetadataUpdate`; a signed message is
/// verified and what it carries decides the outcome; snapshot, hello, share
/// request, validator-set and DA vote messages are acknowledged as
/// ignored control messages.
pub fn ingest_plan(kind: NetworkMessageKind) -> (plan: (IngestStep, Option<NetworkIngestOutcome>))
    ensures
        plan == ingest_plan_spec(kind),
{
    match kind {
        NetworkMessageKind::Transaction => (
            IngestStep::SubmitTransaction,
            Some(NetworkIngestOutcome::TransactionAccepted),
        ),
        NetworkMessageKind::Block => (IngestStep::ImportBlock, Some(NetworkIngestOutcome::BlockImported)),
        NetworkMessageKind::Vote => (IngestStep::Acknowledge, Some(NetworkIngestOutcome::VoteReceived)),
        NetworkMessageKind::FinalityCertificate => (
            IngestStep::Acknowledge,
            Some(NetworkIngestOutcome::FinalityCertificateReceived),
        ),
        NetworkMessageKind::EquivocationEvidence => (
            IngestStep::PersistEquivocationEvidence,
            Some(NetworkIngestOutcome::EquivocationEvidencePersisted),
        ),
        NetworkMessageKind::DaManifest => (
            IngestStep::StoreDaManifest,
            Some(NetworkIngestOutcome::DataAvailabilityStored),
        ),
        NetworkMessageKind::DaShare => (
            IngestStep::StoreDaShare,
            Some(NetworkIngestOutcome::DataAvailabilityStored),
        ),
        NetworkMessageKind::DaAvailabilityCertificate => (
            IngestStep::StoreDaCertificate,
            Some(NetworkIngestOutcome::DataAvailabilityStored),
        ),
        NetworkMessageKind::DaShareChallenge => (
            IngestStep::PersistDaShareChallenge,
            Some(NetworkIngestOutcome::DataAvailabilityStored),
        ),
        NetworkMessageKind::DaShareChallengeResponse => (
            IngestStep::PersistDaShareChallengeResponse,
            Some(NetworkIngestOutcome::DataAvailabilityStored),
        ),
        NetworkMessageKind::DaChallengeEvidence => (
            IngestStep::PersistDaChallengeEvidence,
            Some(NetworkIngestOutcome::DataAvailabilityStored),
        ),
        NetworkMessageKind::ValidatorSetMetadataUpdate => (IngestStep::Refuse, None),
        NetworkMessageKind::SignedValidator => (IngestStep::VerifySigned, None),
        _ => (IngestStep::Acknowledge, Some(NetworkIngestOutcome::IgnoredControlMessage)),
    }
}

/// The error with which an unsigned validator-set update is refused.
pub fn unsigned_update_error() -> (error: NodeError)
    ensures
        error == NodeError::UnsignedValidatorSetMetadataUpdate,
{
    NodeError::UnsignedValidatorSetMetadataUpdate
}

/// Records that a message came from `from`, unless it came from this
/// validator itself.
pub fn observe_peer(peers: &mut IdSet, validator_id: &str, from: &str)
    requires
        old(peers).wf(),
    ensures
        final(peers).wf(),
        final(peers)@ == if from@ == validator_id@ {
            old(peers)@
        } else {
            old(peers)@.insert(from@)
        },
{
    if !str_eq(from, validator_id) {
        peers.insert(owned(from));
    }
}

/// What a message that this validator signs says, as far as equivocation
/// protection is concerned.
pub enum SignedMessageSummary {
    BlockProposal { proposer: String, height: u64, block_hash: String },
    Vote { validator_id: String, height: u64, block_hash: String },
    DaAvailabilityVote { validator_id: String, height: u64, block_hash: String, manifest_hash: String },
    FinalityCertificate { height: u64, block_hash: String },
    DaAvailabilityCertificate { height: u64, block_hash: String, manifest_hash: String },
    Other,
}

/// The slot a signature occupies and the hash it commits to there.
#[derive(Debug)]
pub struct ConsensusSigningCommitment {
    pub domain: SignatureDomain,
    pub height: u64,
    pub block_hash: String,
}

/// Whether `result` reports that `author` signed for someone other than
/// `validator_id`.
pub open spec fn is_signer_mismatch(
    result: Result<Option<ConsensusSigningCommitment>, NodeError>,
    validator_id: Seq<char>,
    author: Seq<char>,
) -> bool {
    result matches Err(NodeError::ConsensusMessageSignerMismatch { expected, actual })
        && expected@ == validator_id && actual@ == author
}

/// Whether `result` is the commitment to `hash` at `height` in `domain`.
pub open spec fn is_commitment(
    result: Result<Option<ConsensusSigningCommitment>, NodeError>,
    domain: SignatureDomain,
    height: u64,
    hash: Seq<char>,
) -> bool {
    result matches Ok(Some(c)) && c.domain == domain && c.height == height && c.block_hash@ == hash
}

/// The commitment that signing `message` makes for `validator_id`: a block
/// proposal, vote or DA vote must be this validator's own; a DA vote or
/// certificate commits to `block_hash:manifest_hash`; other messages commit
/// to nothing.
pub fn consensus_signing_commitment(validator_id: &str, message: &SignedMessageSummary) -> (result:
    Result<Option<ConsensusSigningCommitment>, NodeError>)
    ensures
        match message {
            SignedMessageSummary::BlockProposal { proposer, height, block_hash } => if proposer@
                != validator_id@ {
                is_signer_mismatch(result, validator_id@, proposer@)
            } else {
                is_commitment(result, SignatureDomain::BlockProposal, *height, block_hash@)
            },
            SignedMessageSummary::Vote { validator_id: author, height, block_hash } => if author@
                != validator_id@ {
                is_signer_mismatch(result, validator_id@, author@)
            } else {
                is_commitment(result, SignatureDomain::Vote, *height, block_hash@)
            },
            SignedMessageSummary::DaAvailabilityVote {
                validator_id: author,
                height,
                block_hash,
                manifest_hash,
            } => if author@ != validator_id@ {
                is_signer_mismatch(result, validator_id@, author@)
            } else {
                is_commitment(
                    result,
                    SignatureDomain::DaAvailabilityVote,
                    *height,
                    block_hash@ + ":"@ + manifest_hash@,
                )
            },
            SignedMessageSummary::FinalityCertificate { height, block_hash } => is_commitment(
                result,
                SignatureDomain::FinalityCertificate,
                *height,
                block_hash@,
            ),
            SignedMessageSummary::DaAvailabilityCertificate { height, block_hash, manifest_hash } =>
                is_commitment(
                result,
                SignatureDomain::DaAvailabilityCertificate,
                *height,
                block_hash@ + ":"@ + manifest_hash@,
            ),
            SignedMessageSummary::Other => result matches Ok(None),
        },
{
    match message {
        SignedMessageSummary::BlockProposal { proposer, height, block_hash } => {
            if let Err(e) = check_message_signer(validator_id, proposer.as_str()) {
                return Err(e);
            }
            Ok(
                Some(
                    ConsensusSigningCommitment {
                        domain: SignatureDomain::BlockProposal,
                        height: *height,
                        block_hash: owned(block_hash.as_str()),
                    },
                ),
            )
        },
        SignedMessageSummary::Vote { validator_id: author, height, block_hash } => {
            if let Err(e) = check_message_signer(validator_id, author.as_str()) {
                return Err(e);
            }
            Ok(
                Some(
                    ConsensusSigningCommitment {
                        domain: SignatureDomain::Vote,
                        height: *height,
                        block_hash: owned(block_hash.as_str()),
                    },
                ),
            )
        },
        SignedMessageSummary::DaAvailabilityVote {
            validator_id: author,
            height,
            block_hash,
            manifest_hash,
        } => {
            if let Err(e) = check_message_signer(validator_id, author.as_str()) {
                return Err(e);
            }
            Ok(
                Some(
                    ConsensusSigningCommitment {
                        domain: SignatureDomain::DaAvailabilityVote,
                        height: *height,
                        block_hash: da_signing_commitment(block_hash.as_str(), manifest_hash.as_str()),
                    },
                ),
            )
        },
        SignedMessageSummary::FinalityCertificate { height, block_hash } => Ok(
            Some(
                ConsensusSigningCommitment {
                    domain: SignatureDomain::FinalityCertificate,
                    height: *height,
                    block_hash: owned(block_hash.as_str()),
                },
            ),
        ),
        SignedMessageSummary::DaAvailabilityCertificate { height, block_hash, manifest_hash } => Ok(
            Some(
                ConsensusSigningCommitment {
                    domain: SignatureDomain::DaAvailabilityCertificate,
                    height: *height,
                    block_hash: da_signing_commitment(block_hash.as_str(), manifest_hash.as_str()),
                },
            ),
        ),
        SignedMessageSummary::Other => Ok(None),
    }
}

} // verus!
