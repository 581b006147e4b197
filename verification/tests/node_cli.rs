use detta_node::node_cli::{
    next_block_slot, parse_u128, parse_u64, parse_usize, replication_plan, split_csv,
    usage, validator_key_seed, BftConfig, BftEnvironment, ParsedOptions,
};
use sha2::{Digest, Sha256};

fn strings(items: &[&str]) -> Vec<String> {
    items.iter().map(|s| s.to_string()).collect()
}

fn env() -> BftEnvironment {
    BftEnvironment {
        bft: None,
        validators: None,
        proposer: None,
        quorum: None,
        network_id: None,
        consensus_seed: None,
        consensus_listen: None,
        consensus_peers: None,
        produce_interval_secs: None,
        backfill_peer: None,
        sync_interval_secs: None,
    }
}

#[test]
fn parsed_options_reject_positional_arguments() {
    let args = vec!["positional".to_string()];
    assert!(ParsedOptions::parse(&args).is_err());
}

#[test]
fn node_options_read_values_and_flags() {
    let options = ParsedOptions::parse(&strings(&["--storage", "dir", "--verbose", "--rpc", "x:1"])).unwrap();
    assert_eq!(options.required("storage").unwrap(), "dir");
    assert_eq!(options.optional("rpc"), Some("x:1".to_string()));
    assert_eq!(options.optional("verbose"), None);
    assert_eq!(options.value_or("chain-id", "detta-local"), "detta-local");
    assert_eq!(options.required("genesis").unwrap_err(), "missing required --genesis");
    assert_eq!(
        ParsedOptions::parse(&strings(&["stray"])).err(),
        Some("expected option starting with --, got stray".to_string())
    );
    assert_eq!(
        ParsedOptions::parse(&strings(&["--"])).err(),
        Some("empty option name".to_string())
    );
}

#[test]
fn node_integer_options_name_the_expected_type() {
    assert_eq!(parse_u64("12", "nonce"), Ok(12));
    assert_eq!(
        parse_u64("12a", "nonce"),
        Err("invalid --nonce: expected u64, got 12a".to_string())
    );
    assert_eq!(parse_usize("3", "max-connections"), Ok(3));
    assert_eq!(
        parse_usize("-3", "max-connections"),
        Err("invalid --max-connections: expected usize, got -3".to_string())
    );
    assert_eq!(parse_u128("99", "amount"), Ok(99));
    assert_eq!(
        parse_u128("", "amount"),
        Err("invalid --amount: expected u128, got ".to_string())
    );
}

#[test]
fn split_csv_trims_and_drops_empty_fields() {
    assert_eq!(
        split_csv(" a, b ,,c,"),
        vec!["a".to_string(), "b".to_string(), "c".to_string()]
    );
    assert!(split_csv("").is_empty());
    assert!(split_csv(" , ").is_empty());
}

#[test]
fn bft_is_off_unless_enabled_with_a_roster() {
    assert!(BftConfig::from_env_values("validator-1", &env(), 3).is_none());
    let mut e = env();
    e.bft = Some("yes".into());
    assert!(BftConfig::from_env_values("validator-1", &e, 3).is_none());
    e.validators = Some(" , ".into());
    assert!(BftConfig::from_env_values("validator-1", &e, 3).is_none());
    e.bft = Some("no".into());
    e.validators = Some("validator-1".into());
    assert!(BftConfig::from_env_values("validator-1", &e, 3).is_none());
}

#[test]
fn bft_config_uses_defaults_and_overrides() {
    let mut e = env();
    e.bft = Some("1".into());
    e.validators = Some("validator-2, validator-1,validator-2".into());
    let config = BftConfig::from_env_values("validator-1", &e, 2).unwrap();
    assert_eq!(config.roster, vec!["validator-2", "validator-1", "validator-2"]);
    assert_eq!(config.proposer, "validator-2");
    assert_eq!(config.quorum, 2);
    assert_eq!(config.network_id, "detta-local-bft");
    assert_eq!(config.seed, b"detta-bft-dev-seed".to_vec());
    assert_eq!(config.listen, None);
    assert!(config.peers.is_empty());
    assert_eq!(config.round_interval_secs, 5);
    assert_eq!(config.backfill_peer, None);
    assert_eq!(config.backfill_interval_secs, 2);
    assert_eq!(
        config.active_validators().to_vec(),
        vec!["validator-1".to_string(), "validator-2".to_string()]
    );

    e.quorum = Some("4".into());
    e.proposer = Some("validator-9".into());
    e.produce_interval_secs = Some("0".into());
    e.sync_interval_secs = Some("7".into());
    e.consensus_listen = Some("".into());
    e.backfill_peer = Some("peer:1".into());
    let config = BftConfig::from_env_values("validator-1", &e, 2).unwrap();
    assert_eq!(config.quorum, 4);
    assert_eq!(config.proposer, "validator-9");
    assert_eq!(config.round_interval_secs, 1);
    assert_eq!(config.backfill_interval_secs, 7);
    assert_eq!(config.listen, None);
    assert_eq!(config.backfill_peer, Some("peer:1".to_string()));
}

#[test]
fn validator_key_seed_hashes_domain_length_master_and_id() {
    let mut hasher = Sha256::new();
    hasher.update(b"detta.bft.key.v1");
    hasher.update((4u64).to_be_bytes());
    hasher.update(b"seed");
    hasher.update(b"validator-1");
    let expected = hasher.finalize().to_vec();
    assert_eq!(validator_key_seed(b"seed", "validator-1"), expected);
    assert_ne!(
        validator_key_seed(b"seed", "validator-1"),
        validator_key_seed(b"seed", "validator-2")
    );

    let mut e = env();
    e.bft = Some("true".into());
    e.validators = Some("validator-1".into());
    e.consensus_seed = Some("seed".into());
    let config = BftConfig::from_env_values("validator-1", &e, 1).unwrap();
    assert_eq!(config.own_key(), expected);
}

#[test]
fn replication_plan_selects_leader_and_follower_roles() {
    let plan = replication_plan(&Some("3".into()), &None, &None);
    assert_eq!(plan.produce_interval_secs, Some(3));
    assert!(plan.sync.is_none());
    let plan = replication_plan(&Some("0".into()), &Some("peer".into()), &None);
    assert_eq!(plan.produce_interval_secs, None);
    assert_eq!(plan.sync, Some(("peer".to_string(), 2)));
    let plan = replication_plan(&Some("x".into()), &Some("".into()), &Some("9".into()));
    assert_eq!(plan.produce_interval_secs, None);
    assert!(plan.sync.is_none());
}

#[test]
fn next_block_slot_stamps_a_thousand_per_height() {
    assert_eq!(next_block_slot(0), (1, 1000));
    assert_eq!(next_block_slot(41), (42, 42000));
    assert_eq!(next_block_slot(u64::MAX - 1), (u64::MAX, u64::MAX));
}

#[test]
fn node_usage_lists_the_commands() {
    let text = usage();
    assert!(text.starts_with("Usage:\n  detta-node write-genesis"));
    assert!(text.contains("detta-node faucet-tx --to ACCOUNT"));
}
