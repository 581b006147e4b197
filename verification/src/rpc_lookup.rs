//! How the node answers an RPC request that looks one record up by its key:
//! the record, the request's own "not found" error, or the node error that
//! the load raised.
use crate::node_error::NodeError;
use vstd::prelude::*;

verus! {

/// The RPC requests that load one stored record by its key.
#[derive(Clone, Copy, Debug, PartialEq, Eq, Structural)]
pub enum RpcLookup {
    Block,
    Transaction,
    Receipt,
    FinalityCertificate,
    SlashingRecord,
    DaManifest,
    DaShare,
    DaCertificate,
    DaChallengeRecord,
    DaNamespace,
    ApplicationDaProfile,
    ApplicationDaManifest,
    ApplicationDaShare,
    ApplicationDaCertificate,
    ApplicationDaNamespace,
}

/// The RPC errors that report a missing record.
#[derive(Clone, Copy, Debug, PartialEq, Eq, Structural)]
pub enum RpcNotFound {
    BlockNotFound,
    TransactionNotFound,
    ReceiptNotFound,
    ProofNotFound,
    CertificateNotFound,
    SlashingRecordNotFound,
    DaManifestNotFound,
    DaShareNotFound,
    DaCertificateNotFound,
    DaChallengeRecordNotFound,
    DaNamespaceNotFound,
    ApplicationDaProfileNotFound,
    ApplicationDaManifestNotFound,
    ApplicationDaShareNotFound,
    ApplicationDaCertificateNotFound,
    ApplicationDaNamespaceNotFound,
}

/// The error that answers a lookup of kind `kind` that found nothing.
pub open spec fn not_found_spec(kind: RpcLookup) -> RpcNotFound {
    match kind {
        RpcLookup::Block => RpcNotFound::BlockNotFound,
        RpcLookup::Transaction => RpcNotFound::TransactionNotFound,
        RpcLookup::Receipt => RpcNotFound::ReceiptNotFound,
        RpcLookup::FinalityCertificate => RpcNotFound::CertificateNotFound,
        RpcLookup::SlashingRecord => RpcNotFound::SlashingRecordNotFound,
        RpcLookup::DaManifest => RpcNotFound::DaManifestNotFound,
        RpcLookup::DaShare => RpcNotFound::DaShareNotFound,
        RpcLookup::DaCertificate => RpcNotFound::DaCertificateNotFound,
        RpcLookup::DaChallengeRecord => RpcNotFound::DaChallengeRecordNotFound,
        RpcLookup::DaNamespace => RpcNotFound::DaNamespaceNotFound,
        RpcLookup::ApplicationDaProfile => RpcNotFound::ApplicationDaProfileNotFound,
        RpcLookup::ApplicationDaManifest => RpcNotFound::ApplicationDaManifestNotFound,
        RpcLookup::ApplicationDaShare => RpcNotFound::ApplicationDaShareNotFound,
        RpcLookup::ApplicationDaCertificate => RpcNotFound::ApplicationDaCertificateNotFound,
        RpcLookup::ApplicationDaNamespace => RpcNotFound::ApplicationDaNamespaceNotFound,
    }
}

/// The error that answers a lookup of kind `kind` that found nothing.
pub fn not_found_error(kind: RpcLookup) -> (error: RpcNotFound)
    ensures
        error == not_found_spec(kind),
{
    match kind {
        RpcLookup::Block => RpcNotFound::BlockNotFound,
        RpcLookup::Transaction => RpcNotFound::TransactionNotFound,
        RpcLookup::Receipt => RpcNotFound::ReceiptNotFound,
        RpcLookup::FinalityCertificate => RpcNotFound::CertificateNotFound,
        RpcLookup::SlashingRecord => RpcNotFound::SlashingRecordNotFound,
        RpcLookup::DaManifest => RpcNotFound::DaManifestNotFound,
        RpcLookup::DaShare => RpcNotFound::DaShareNotFound,
        RpcLookup::DaCertificate => RpcNotFound::DaCertificateNotFound,
        RpcLookup::DaChallengeRecord => RpcNotFound::DaChallengeRecordNotFound,
        RpcLookup::DaNamespace => RpcNotFound::DaNamespaceNotFound,
        RpcLookup::ApplicationDaProfile => RpcNotFound::ApplicationDaProfileNotFound,
        RpcLookup::ApplicationDaManifest => RpcNotFound::ApplicationDaManifestNotFound,
        RpcLookup::ApplicationDaShare => RpcNotFound::ApplicationDaShareNotFound,
        RpcLookup::ApplicationDaCertificate => RpcNotFound::ApplicationDaCertificateNotFound,
        RpcLookup::ApplicationDaNamespace => RpcNotFound::ApplicationDaNamespaceNotFound,
    }
}

/// The answer to a lookup request.
#[derive(Debug)]
pub enum LookupReply<T> {
    /// The record was loaded.
    Found(T),
    /// Nothing is stored under the key.
    Missing(RpcNotFound),
    /// Loading failed.
    Failed(NodeError),
}

/// Answers a lookup of kind `kind` from what loading its key gave.
pub fn lookup_reply<T>(kind: RpcLookup, loaded: Result<Option<T>, NodeError>) -> (reply: LookupReply<T>)
    ensures
        match loaded {
            Ok(Some(record)) => reply == LookupReply::Found(record),
            Ok(None) => reply == LookupReply::<T>::Missing(not_found_spec(kind)),
            Err(error) => reply == LookupReply::<T>::Failed(error),
        },
{
    match loaded {
        Ok(Some(record)) => LookupReply::Found(record),
        Ok(None) => LookupReply::Missing(not_found_error(kind)),
        Err(error) => LookupReply::Failed(error),
    }
}

/// Answers a receipt proof request from what loading the block gave and,
/// for a loaded block, the proof of the requested receipt if it has one:
/// a missing block and a missing receipt are told apart.
pub fn receipt_proof_reply<P>(loaded: Result<Option<Option<P>>, NodeError>) -> (reply: LookupReply<P>)
    ensures
        match loaded {
            Ok(Some(Some(proof))) => reply == LookupReply::Found(proof),
            Ok(Some(None)) => reply == LookupReply::<P>::Missing(RpcNotFound::ProofNotFound),
            Ok(None) => reply == LookupReply::<P>::Missing(RpcNotFound::BlockNotFound),
            Err(error) => reply == LookupReply::<P>::Failed(error),
        },
{
    match loaded {
        Ok(Some(Some(proof))) => LookupReply::Found(proof),
        Ok(Some(None)) => LookupReply::Missing(RpcNotFound::ProofNotFound),
        Ok(None) => LookupReply::Missing(not_found_error(RpcLookup::Block)),
        Err(error) => LookupReply::Failed(error),
    }
}

/// Whether a reply is an error, which the node counts.
pub fn is_error_reply<T>(reply: &LookupReply<T>) -> (error: bool)
    ensures
        error == !(reply is Found),
{
    match reply {
        LookupReply::Found(_) => false,
        _ => true,
    }
}

/// The page size an audit page request is served with: the requested one,
/// capped by the node's maximum.
pub fn audit_page_limit(limit: usize, max_page_size: usize) -> (effective: usize)
    ensures
        effective == vstd::math::min(limit as int, max_page_size as int),
{
    if limit < max_page_size {
        limit
    } else {
        max_page_size
    }
}

} // verus!
