//! Verified core of a DeTTa validator node: protocol envelope framing, the
//! command lines of the node and the client, the validator-set registry and
//! its authorization pool, block assembly, the data-availability payload
//! layout, state-sync bookkeeping, snapshot metadata root reconciliation,
//! RPC serving decisions, consensus-round decisions and operator alerting.
pub mod alerts;
pub mod block_selection;
pub mod client_cli;
pub mod client_command;
pub mod consensus_round;
pub mod da_layout;
pub mod digest;
pub mod ingest;
pub mod keyring;
pub mod metadata_roots;
pub mod node_cli;
pub mod node_command;
pub mod node_error;
pub mod node_settings;
pub mod numeric;
pub mod options;
pub mod protocol;
pub mod rate_limit;
pub mod rpc_lookup;
pub mod serving;
pub mod sorted;
pub mod state_sync;
pub mod sync_metrics;
pub mod table;
pub mod text;
pub mod validator_set;
pub mod validator_update;
