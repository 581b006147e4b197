//! The decisions a validator takes between the network exchanges of a
//! consensus round: which peer certificates it keeps, when it votes, and
//! which block it fetches next while catching up.
use crate::node_error::{NetworkIngestOutcome, NodeError};
use crate::numeric::{decimal_spec, push_decimal};
use crate::text::str_eq;
use vstd::prelude::*;

verus! {

/// Whether a finality certificate received from a peer is kept: the block
/// stored locally at its height (if any) has the certified hash, and the
/// certificate verified against the active validator set.
pub fn accept_peer_certificate(
    local_block_hash: &Option<String>,
    certificate_block_hash: &str,
    certificate_verified: bool,
) -> (accept: bool)
    ensures
        accept == (certificate_verified && match local_block_hash {
            Some(hash) => hash@ == certificate_block_hash@,
            None => false,
        }),
{
    let matches_local = match local_block_hash {
        Some(hash) => str_eq(hash.as_str(), certificate_block_hash),
        None => false,
    };
    matches_local && certificate_verified
}

/// Whether a validator answers a proposal with its vote: only once the
/// proposed block was imported.
pub fn vote_after_ingest(outcome: NetworkIngestOutcome) -> (vote: bool)
    ensures
        vote == (outcome == NetworkIngestOutcome::BlockImported),
{
    match outcome {
        NetworkIngestOutcome::BlockImported => true,
        _ => false,
    }
}

/// The height a follower at `local_height` fetches next from a peer at
/// `peer_height`: the next one while it is behind, none once it has caught
/// up.
pub fn follower_next_height(local_height: u64, peer_height: u64) -> (next: Option<u64>)
    ensures
        local_height >= peer_height ==> next is None,
        local_height < peer_height ==> next == Some((local_height + 1) as u64),
{
    if local_height >= peer_height {
        None
    } else {
        Some(local_height + 1)
    }
}

/// `prefix`, the validator id, a colon and the height in decimal.
fn labelled_height(prefix: &str, validator_id: &str, height: u64) -> (label: String)
    ensures
        label@ == prefix@ + validator_id@ + ":"@ + decimal_spec(height as nat),
{
    let mut label = crate::text::concat_str(prefix, validator_id);
    label.append(":");
    push_decimal(&mut label, height);
    label
}

/// The consensus certificate a proposal built for BFT finality carries:
/// `bft-cert:<validator>:<height>`.
pub fn proposal_certificate(validator_id: &str, height: u64) -> (certificate: String)
    ensures
        certificate@ == "bft-cert:"@ + validator_id@ + ":"@ + decimal_spec(height as nat),
{
    labelled_height("bft-cert:", validator_id, height)
}

/// The consensus certificate a block produced locally with data
/// availability carries: `sim-cert:<validator>:<height>`.
pub fn local_block_certificate(validator_id: &str, height: u64) -> (certificate: String)
    ensures
        certificate@ == "sim-cert:"@ + validator_id@ + ":"@ + decimal_spec(height as nat),
{
    labelled_height("sim-cert:", validator_id, height)
}

/// Refuses a proposal that does not build on the current height.
pub fn check_proposal_height(current_height: u64, proposed_height: u64) -> (result: Result<(), NodeError>)
    requires
        current_height < u64::MAX,
    ensures
        proposed_height == current_height + 1 ==> result is Ok,
        proposed_height != current_height + 1 ==> (result matches Err(
            NodeError::BlockProposalRejected(m),
        ) && m@ == "proposed height "@ + decimal_spec(proposed_height as nat)
            + " does not build on current height "@ + decimal_spec(current_height as nat)
            + " (expected "@ + decimal_spec((current_height + 1) as nat) + ")"@),
{
    let expected = current_height + 1;
    if proposed_height == expected {
        return Ok(());
    }
    let mut message = crate::text::owned("proposed height ");
    push_decimal(&mut message, proposed_height);
    message.append(" does not build on current height ");
    push_decimal(&mut message, current_height);
    message.append(" (expected ");
    push_decimal(&mut message, expected);
    message.append(")");
    Err(NodeError::BlockProposalRejected(message))
}

/// Refuses a proposal whose block, executed again locally, hashes
/// differently.
pub fn check_rebuilt_block(height: u64, rebuilt_hash: &str, proposed_hash: &str) -> (result: Result<
    (),
    NodeError,
>)
    ensures
        rebuilt_hash@ == proposed_hash@ ==> result is Ok,
        rebuilt_hash@ != proposed_hash@ ==> (result matches Err(
            NodeError::BlockProposalRejected(m),
        ) && m@ == "re-executed block at height "@ + decimal_spec(height as nat)
            + " does not match the proposal"@),
{
    if str_eq(rebuilt_hash, proposed_hash) {
        return Ok(());
    }
    let mut message = crate::text::owned("re-executed block at height ");
    push_decimal(&mut message, height);
    message.append(" does not match the proposal");
    Err(NodeError::BlockProposalRejected(message))
}

} // verus!
