//! The plain settings a validator node carries besides its state and
//! storage: who it is, which network it is on, how many audit records it
//! keeps and serves per page, its alert policy, and how long its last block
//! took.
use crate::alerts::OperatorAlertPolicy;
use crate::serving::elapsed_micros;
use crate::text::owned;
use vstd::prelude::*;

verus! {

/// The network a node is on until told otherwise.
pub const DEFAULT_NODE_NETWORK_ID: &'static str = "detta-localnet";

pub const DEFAULT_MAX_VALIDATOR_SET_METADATA_AUDIT_RECORDS: usize = 4096;

pub const DEFAULT_MAX_VALIDATOR_SET_METADATA_AUDIT_PAGE_SIZE: usize = 100;

pub const DEFAULT_MAX_SNAPSHOT_IMPORT_AUDIT_RECORDS: usize = 4096;

pub const DEFAULT_MAX_SNAPSHOT_IMPORT_AUDIT_PAGE_SIZE: usize = 100;

/// How many snapshot import audit records are kept and served per page;
/// the node stores it so that a restart keeps it.
#[derive(Clone, Copy, Debug, PartialEq, Eq, Structural)]
pub struct SnapshotImportAuditConfig {
    pub max_records: usize,
    pub max_page_size: usize,
}

/// A node's plain settings.
#[derive(Clone, Debug)]
pub struct NodeSettings {
    pub validator_id: String,
    pub network_id: String,
    pub max_validator_set_metadata_audit_records: usize,
    pub max_validator_set_metadata_audit_page_size: usize,
    pub snapshot_import_audit: SnapshotImportAuditConfig,
    pub operator_alert_policy: OperatorAlertPolicy,
    pub last_block_execution_micros: Option<u64>,
}

impl NodeSettings {
    /// The settings of a node that has just started as `validator_id`: the
    /// default network and audit limits, no block executed yet, and the
    /// given alert policy.
    pub fn new(validator_id: &str, policy: OperatorAlertPolicy) -> (settings: Self)
        ensures
            settings.validator_id@ == validator_id@,
            settings.network_id@ == DEFAULT_NODE_NETWORK_ID@,
            settings.max_validator_set_metadata_audit_records
                == DEFAULT_MAX_VALIDATOR_SET_METADATA_AUDIT_RECORDS,
            settings.max_validator_set_metadata_audit_page_size
                == DEFAULT_MAX_VALIDATOR_SET_METADATA_AUDIT_PAGE_SIZE,
            settings.snapshot_import_audit == (SnapshotImportAuditConfig {
                max_records: DEFAULT_MAX_SNAPSHOT_IMPORT_AUDIT_RECORDS,
                max_page_size: DEFAULT_MAX_SNAPSHOT_IMPORT_AUDIT_PAGE_SIZE,
            }),
            settings.operator_alert_policy == policy,
            settings.last_block_execution_micros is None,
    {
        NodeSettings {
            validator_id: owned(validator_id),
            network_id: owned(DEFAULT_NODE_NETWORK_ID),
            max_validator_set_metadata_audit_records: DEFAULT_MAX_VALIDATOR_SET_METADATA_AUDIT_RECORDS,
            max_validator_set_metadata_audit_page_size:
                DEFAULT_MAX_VALIDATOR_SET_METADATA_AUDIT_PAGE_SIZE,
            snapshot_import_audit: SnapshotImportAuditConfig {
                max_records: DEFAULT_MAX_SNAPSHOT_IMPORT_AUDIT_RECORDS,
                max_page_size: DEFAULT_MAX_SNAPSHOT_IMPORT_AUDIT_PAGE_SIZE,
            },
            operator_alert_policy: policy,
            last_block_execution_micros: None,
        }
    }

    /// The settings after a restart: those of a fresh start, with the
    /// snapshot import audit limits that were stored, if any.
    pub fn restarted(
        validator_id: &str,
        policy: OperatorAlertPolicy,
        stored_audit_config: Option<SnapshotImportAuditConfig>,
    ) -> (settings: Self)
        ensures
            settings.validator_id@ == validator_id@,
            settings.network_id@ == DEFAULT_NODE_NETWORK_ID@,
            settings.max_validator_set_metadata_audit_records
                == DEFAULT_MAX_VALIDATOR_SET_METADATA_AUDIT_RECORDS,
            settings.max_validator_set_metadata_audit_page_size
                == DEFAULT_MAX_VALIDATOR_SET_METADATA_AUDIT_PAGE_SIZE,
            settings.snapshot_import_audit == match stored_audit_config {
                Some(config) => config,
                None => SnapshotImportAuditConfig {
                    max_records: DEFAULT_MAX_SNAPSHOT_IMPORT_AUDIT_RECORDS,
                    max_page_size: DEFAULT_MAX_SNAPSHOT_IMPORT_AUDIT_PAGE_SIZE,
                },
            },
            settings.operator_alert_policy == policy,
            settings.last_block_execution_micros is None,
    {
        let mut settings = NodeSettings::new(validator_id, policy);
        if let Some(config) = stored_audit_config {
            settings.snapshot_import_audit = config;
        }
        settings
    }

    /// The node's validator id.
    pub fn validator_id(&self) -> (id: &str)
        ensures
            id@ == self.validator_id@,
    {
        self.validator_id.as_str()
    }

    /// The network the node is on.
    pub fn network_id(&self) -> (id: &str)
        ensures
            id@ == self.network_id@,
    {
        self.network_id.as_str()
    }

    /// Moves the node to network `network_id`; nothing else changes.
    pub fn set_network_id(&mut self, network_id: &str)
        ensures
            final(self).network_id@ == network_id@,
            final(self).validator_id == old(self).validator_id,
            final(self).max_validator_set_metadata_audit_records
                == old(self).max_validator_set_metadata_audit_records,
            final(self).max_validator_set_metadata_audit_page_size
                == old(self).max_validator_set_metadata_audit_page_size,
            final(self).snapshot_import_audit == old(self).snapshot_import_audit,
            final(self).operator_alert_policy == old(self).operator_alert_policy,
            final(self).last_block_execution_micros == old(self).last_block_execution_micros,
    {
        self.network_id = owned(network_id);
    }

    /// Sets how many validator-set metadata audit records are kept and
    /// served per page; nothing else changes.
    pub fn set_validator_set_metadata_audit_limits(&mut self, max_records: usize, max_page_size: usize)
        ensures
            final(self).max_validator_set_metadata_audit_records == max_records,
            final(self).max_validator_set_metadata_audit_page_size == max_page_size,
            final(self).validator_id == old(self).validator_id,
            final(self).network_id == old(self).network_id,
            final(self).snapshot_import_audit == old(self).snapshot_import_audit,
            final(self).operator_alert_policy == old(self).operator_alert_policy,
            final(self).last_block_execution_micros == old(self).last_block_execution_micros,
    {
        self.max_validator_set_metadata_audit_records = max_records;
        self.max_validator_set_metadata_audit_page_size = max_page_size;
    }

    /// Sets how many snapshot import audit records are kept and served per
    /// page, and gives back the configuration the node then stores; nothing
    /// else changes.
    pub fn set_snapshot_import_audit_limits(&mut self, max_records: usize, max_page_size: usize) -> (config:
        SnapshotImportAuditConfig)
        ensures
            config == (SnapshotImportAuditConfig { max_records, max_page_size }),
            final(self).snapshot_import_audit == config,
            final(self).validator_id == old(self).validator_id,
            final(self).network_id == old(self).network_id,
            final(self).max_validator_set_metadata_audit_records
                == old(self).max_validator_set_metadata_audit_records,
            final(self).max_validator_set_metadata_audit_page_size
                == old(self).max_validator_set_metadata_audit_page_size,
            final(self).operator_alert_policy == old(self).operator_alert_policy,
            final(self).last_block_execution_micros == old(self).last_block_execution_micros,
    {
        let config = SnapshotImportAuditConfig { max_records, max_page_size };
        self.snapshot_import_audit = config;
        config
    }

    /// The snapshot import audit limits in force.
    pub fn snapshot_import_audit_config(&self) -> (config: SnapshotImportAuditConfig)
        ensures
            config == self.snapshot_import_audit,
    {
        self.snapshot_import_audit
    }

    /// Replaces the alert policy; nothing else changes.
    pub fn set_operator_alert_policy(&mut self, policy: OperatorAlertPolicy)
        ensures
            final(self).operator_alert_policy == policy,
            final(self).validator_id == old(self).validator_id,
            final(self).network_id == old(self).network_id,
            final(self).max_validator_set_metadata_audit_records
                == old(self).max_validator_set_metadata_audit_records,
            final(self).max_validator_set_metadata_audit_page_size
                == old(self).max_validator_set_metadata_audit_page_size,
            final(self).snapshot_import_audit == old(self).snapshot_import_audit,
            final(self).last_block_execution_micros == old(self).last_block_execution_micros,
    {
        self.operator_alert_policy = policy;
    }

    /// The page size a validator-set metadata audit page is served with.
    pub fn validator_set_metadata_audit_page_limit(&self, limit: usize) -> (effective: usize)
        ensures
            effective == vstd::math::min(
                limit as int,
                self.max_validator_set_metadata_audit_page_size as int,
            ),
    {
        crate::rpc_lookup::audit_page_limit(limit, self.max_validator_set_metadata_audit_page_size)
    }

    /// The page size a snapshot import audit page is served with.
    pub fn snapshot_import_audit_page_limit(&self, limit: usize) -> (effective: usize)
        ensures
            effective == vstd::math::min(limit as int, self.snapshot_import_audit.max_page_size as int),
    {
        crate::rpc_lookup::audit_page_limit(limit, self.snapshot_import_audit.max_page_size)
    }

    /// Records that producing or importing a block took `micros`
    /// microseconds; nothing else changes.
    pub fn record_block_execution(&mut self, micros: u128)
        ensures
            final(self).last_block_execution_micros == Some(
                if micros == 0 {
                    1
                } else if micros > u64::MAX {
                    u64::MAX
                } else {
                    micros as u64
                },
            ),
            final(self).validator_id == old(self).validator_id,
            final(self).network_id == old(self).network_id,
            final(self).max_validator_set_metadata_audit_records
                == old(self).max_validator_set_metadata_audit_records,
            final(self).max_validator_set_metadata_audit_page_size
                == old(self).max_validator_set_metadata_audit_page_size,
            final(self).snapshot_import_audit == old(self).snapshot_import_audit,
            final(self).operator_alert_policy == old(self).operator_alert_policy,
    {
        self.last_block_execution_micros = Some(elapsed_micros(micros));
    }
}

} // verus!
