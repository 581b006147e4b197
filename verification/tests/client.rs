use detta_node::client_cli::{
    parse_csv_option, parse_da_retention_class, parse_u128, parse_u32, parse_u64,
    DaRetentionClass, ParsedOptions,
};
use detta_node::client_command::{
    add_liquidity_tx, client_action, default_timestamp_overflows, deploy_pool_tx, deploy_token_tx,
    finalize_block_request,
    plan_client_run, swap_tx, usage, Argument, ClientAction, ClientInvocation, ClientRequest,
    Method, DEFAULT_BUDGET, DEFAULT_CHAIN_ID, DEFAULT_FACTORY_CONTRACT, DEFAULT_POOL_CONTRACT,
};

fn strings(items: &[&str]) -> Vec<String> {
    items.iter().map(|s| s.to_string()).collect()
}

fn options(items: &[&str]) -> ParsedOptions {
    ParsedOptions::parse(&strings(items)).unwrap()
}

#[test]
fn deploy_token_command_builds_factory_transaction() {
    let options = ParsedOptions::parse(&[
        "--contract".into(),
        "ClientToken".into(),
        "--asset".into(),
        "CLT".into(),
        "--initial-holder".into(),
        "Alice".into(),
        "--initial-supply".into(),
        "1000".into(),
        "--sender".into(),
        "Issuer".into(),
        "--nonce".into(),
        "7".into(),
        "--tx-hash".into(),
        "deploy-token-1".into(),
    ])
    .unwrap();
    let tx = deploy_token_tx(&options).unwrap();
    assert_eq!(tx.tx_hash, "deploy-token-1");
    assert_eq!(tx.sender, "Issuer");
    assert_eq!(tx.target, DEFAULT_FACTORY_CONTRACT);
    assert_eq!(tx.method, Method::DeployToken);
    assert_eq!(
        tx.args,
        vec![
            Argument::Text("ClientToken".into()),
            Argument::Asset("CLT".into()),
            Argument::Principal("Alice".into()),
            Argument::Amount(1000)
        ]
    );
}

#[test]
fn swap_command_builds_pool_transaction() {
    let options = ParsedOptions::parse(&[
        "--pool".into(),
        "ClientPool".into(),
        "--input-asset".into(),
        "CLT".into(),
        "--amount-in".into(),
        "15".into(),
        "--min-output".into(),
        "8".into(),
        "--sender".into(),
        "Bob".into(),
        "--nonce".into(),
        "2".into(),
    ])
    .unwrap();
    let tx = swap_tx(&options).unwrap();
    assert_eq!(tx.sender, "Bob");
    assert_eq!(tx.target, "ClientPool");
    assert_eq!(tx.method, Method::Swap);
    assert_eq!(
        tx.args,
        vec![
            Argument::Asset("CLT".into()),
            Argument::Amount(15),
            Argument::Amount(8)
        ]
    );
}

#[test]
fn parses_da_retention_class_names() {
    assert_eq!(
        parse_da_retention_class("hot").unwrap(),
        DaRetentionClass::Hot
    );
    assert_eq!(
        parse_da_retention_class("Checkpoint").unwrap(),
        DaRetentionClass::Checkpoint
    );
    assert!(parse_da_retention_class("archive").is_err());
}

#[test]
fn parses_optional_csv_namespaces() {
    assert_eq!(
        parse_csv_option(Some("detta.tx, detta.receipt,,detta.block".into())),
        vec![
            "detta.tx".to_string(),
            "detta.receipt".to_string(),
            "detta.block".to_string()
        ]
    );
    assert!(parse_csv_option(None).is_empty());
}

#[test]
fn retention_class_error_names_the_value() {
    assert_eq!(
        parse_da_retention_class("archive").unwrap_err(),
        "invalid --class: expected hot, warm, cold, or checkpoint, got archive"
    );
    assert_eq!(parse_da_retention_class("WARM").unwrap(), DaRetentionClass::Warm);
    assert_eq!(parse_da_retention_class("cold").unwrap(), DaRetentionClass::Cold);
}

#[test]
fn client_options_accept_both_forms_and_later_values_win() {
    let options = options(&["--a", "1", "--b=2", "--a=3"]);
    assert_eq!(options.required("a").unwrap(), "3");
    assert_eq!(options.optional("b"), Some("2".to_string()));
    assert_eq!(options.optional("c"), None);
    assert_eq!(options.value_or("c", "dflt"), "dflt");
    assert_eq!(
        options.required("c").unwrap_err(),
        "missing required option --c"
    );
}

#[test]
fn client_options_report_each_malformed_form() {
    let parse = |items: &[&str]| ParsedOptions::parse(&strings(items)).err();
    assert_eq!(
        parse(&["positional"]),
        Some("unexpected positional argument: positional".to_string())
    );
    assert_eq!(parse(&["--"]), Some("empty option name".to_string()));
    assert_eq!(parse(&["--=x"]), Some("empty option name".to_string()));
    assert_eq!(parse(&["--key"]), Some("missing value for --key".to_string()));
    assert_eq!(
        parse(&["--key", "--other", "v"]),
        Some("missing value for --key".to_string())
    );
}

#[test]
fn client_integer_options_report_parse_errors_like_std() {
    assert_eq!(parse_u64("42", "nonce"), Ok(42));
    assert_eq!(parse_u64("+7", "nonce"), Ok(7));
    assert_eq!(
        parse_u64("", "nonce"),
        Err("invalid --nonce: cannot parse integer from empty string".to_string())
    );
    assert_eq!(
        parse_u64("4x", "nonce"),
        Err("invalid --nonce: invalid digit found in string".to_string())
    );
    assert_eq!(
        parse_u32("4294967296", "index"),
        Err("invalid --index: number too large to fit in target type".to_string())
    );
    assert_eq!(parse_u32("4294967295", "index"), Ok(u32::MAX));
    assert_eq!(parse_u128("340282366920938463463374607431768211455", "x"), Ok(u128::MAX));
    for text in ["0", "18446744073709551615", "18446744073709551616", "-1", "+", "1 2"] {
        let expected = text.parse::<u64>().map_err(|e| format!("invalid --v: {e}"));
        assert_eq!(parse_u64(text, "v"), expected);
    }
}

#[test]
fn default_transaction_hash_is_prefix_sender_nonce() {
    let options = options(&["--pool", "P", "--asset-a-amount", "5", "--asset-b-amount", "6", "--nonce", "12"]);
    let tx = add_liquidity_tx(&options).unwrap();
    assert_eq!(tx.tx_hash, "add-liquidity-Alice-12");
    assert_eq!(tx.chain_id, DEFAULT_CHAIN_ID);
    assert_eq!(tx.budget, DEFAULT_BUDGET);
    assert_eq!(tx.valid_until_height, None);
    assert!(tx.signature_ok);
    assert_eq!(tx.nonce, 12);
    assert_eq!(tx.args, vec![Argument::Amount(5), Argument::Amount(6)]);
}

#[test]
fn transaction_options_override_defaults() {
    let options = options(&[
        "--contract", "PoolX", "--asset-a", "A", "--asset-b", "B", "--nonce", "0",
        "--chain-id", "other", "--budget", "9", "--valid-until-height", "77", "--factory", "F2",
    ]);
    let tx = deploy_pool_tx(&options).unwrap();
    assert_eq!(tx.tx_hash, "deploy-pool-Alice-0");
    assert_eq!(tx.chain_id, "other");
    assert_eq!(tx.budget, 9);
    assert_eq!(tx.valid_until_height, Some(77));
    assert_eq!(tx.target, "F2");
    assert_eq!(tx.method, Method::DeployAmmPool);
    assert_eq!(
        tx.args,
        vec![
            Argument::Text("PoolX".into()),
            Argument::Asset("A".into()),
            Argument::Asset("B".into())
        ]
    );
}

#[test]
fn transaction_errors_come_in_evaluation_order() {
    assert_eq!(
        deploy_token_tx(&options(&[])).unwrap_err(),
        "missing required option --contract"
    );
    assert_eq!(
        deploy_token_tx(&options(&["--contract", "C"])).unwrap_err(),
        "missing required option --nonce"
    );
    assert_eq!(
        deploy_token_tx(&options(&["--contract", "C", "--nonce", "x"])).unwrap_err(),
        "invalid --nonce: invalid digit found in string"
    );
    assert_eq!(
        deploy_token_tx(&options(&["--contract", "C", "--nonce", "1", "--asset", "A"])).unwrap_err(),
        "missing required option --initial-supply"
    );
    assert_eq!(
        swap_tx(&options(&["--nonce", "1", "--input-asset", "A", "--amount-in", "1", "--min-output", "1", "--budget", "lots"]))
            .unwrap_err(),
        "invalid --budget: invalid digit found in string"
    );
    let tx = deploy_token_tx(&options(&[
        "--contract", "C", "--nonce", "3", "--asset", "A", "--initial-supply", "5",
    ]))
    .unwrap();
    assert_eq!(tx.args[2], Argument::Principal("Alice".into()));
    assert_eq!(tx.target, DEFAULT_FACTORY_CONTRACT);
    assert_eq!(swap_tx(&options(&["--nonce", "1", "--input-asset", "A", "--amount-in", "1", "--min-output", "1"])).unwrap().target, DEFAULT_POOL_CONTRACT);
}

#[test]
fn commands_map_to_requests() {
    match client_action("produce-block", &options(&["--height", "5"])).unwrap() {
        ClientAction::Query(ClientRequest::ProduceBlock { height, timestamp }) => {
            assert_eq!((height, timestamp), (5, 5000));
        }
        other => panic!("unexpected action {other:?}"),
    }
    match client_action("produce-da-block", &options(&["--height", "2", "--timestamp", "9"])).unwrap() {
        ClientAction::Query(ClientRequest::ProduceDaBlock { height, timestamp, share_size_bytes }) => {
            assert_eq!((height, timestamp, share_size_bytes), (2, 9, 128));
        }
        other => panic!("unexpected action {other:?}"),
    }
    match client_action(
        "da-sample-proofs",
        &options(&["--manifest-hash", "m", "--client-randomness", "r", "--sample-count", "4", "--namespaces", "a, b"]),
    )
    .unwrap()
    {
        ClientAction::Query(ClientRequest::GetDaSampleProofs { manifest_hash, client_randomness, sample_count, namespaces }) => {
            assert_eq!(manifest_hash, "m");
            assert_eq!(client_randomness, "r");
            assert_eq!(sample_count, 4);
            assert_eq!(namespaces, vec!["a".to_string(), "b".to_string()]);
        }
        other => panic!("unexpected action {other:?}"),
    }
    match client_action("da-manifest-index-by-retention", &options(&["--class", "Cold"])).unwrap() {
        ClientAction::Query(ClientRequest::GetDaManifestIndexByRetentionClass { class }) => {
            assert_eq!(class, DaRetentionClass::Cold);
        }
        other => panic!("unexpected action {other:?}"),
    }
    assert!(matches!(
        client_action("state-root", &options(&[])).unwrap(),
        ClientAction::Query(ClientRequest::GetStateRoot)
    ));
    assert!(matches!(
        client_action("swap", &options(&["--nonce", "1", "--input-asset", "A", "--amount-in", "1", "--min-output", "1"])).unwrap(),
        ClientAction::Submit(_)
    ));
    assert_eq!(
        client_action("da-share", &options(&["--manifest-hash", "m"])).unwrap_err(),
        "missing required option --index"
    );
    assert_eq!(
        client_action("receipt", &options(&[])).unwrap_err(),
        "missing required option --tx-hash"
    );
}

#[test]
fn unknown_command_reports_usage() {
    let error = client_action("launch", &options(&[])).unwrap_err();
    assert_eq!(error, format!("unknown command: launch\n\n{}", usage()));
    assert!(usage().starts_with("Usage:\n  detta-client deploy-token"));
}

#[test]
fn client_run_plan_handles_help_options_and_address() {
    assert_eq!(plan_client_run(&strings(&["detta-client"])).err(), Some(usage()));
    assert!(matches!(
        plan_client_run(&strings(&["detta-client", "--help"])),
        Ok(ClientInvocation::Help)
    ));
    assert!(matches!(
        plan_client_run(&strings(&["detta-client", "help", "stray"])),
        Ok(ClientInvocation::Help)
    ));
    match plan_client_run(&strings(&["detta-client", "state-root", "--rpc", "10.0.0.1:9"])) {
        Ok(ClientInvocation::Execute { command, rpc_addr, .. }) => {
            assert_eq!(command, "state-root");
            assert_eq!(rpc_addr, "10.0.0.1:9");
        }
        _ => panic!("expected a command"),
    }
    match plan_client_run(&strings(&["detta-client", "state-root"])) {
        Ok(ClientInvocation::Execute { rpc_addr, .. }) => assert_eq!(rpc_addr, "127.0.0.1:8080"),
        _ => panic!("expected a command"),
    }
    assert_eq!(
        plan_client_run(&strings(&["detta-client", "state-root", "stray"])).err(),
        Some("unexpected positional argument: stray".to_string())
    );
}

#[test]
fn finalize_plan_follows_produce_options() {
    assert_eq!(finalize_block_request(&options(&[])), Ok(None));
    assert_eq!(finalize_block_request(&options(&["--produce-height", "3"])), Ok(Some((3, 3000))));
    assert_eq!(
        finalize_block_request(&options(&["--produce-height", "3", "--produce-timestamp", "8"])),
        Ok(Some((3, 8)))
    );
    assert_eq!(
        finalize_block_request(&options(&["--produce-height", "h"])),
        Err("invalid --produce-height: invalid digit found in string".to_string())
    );
}

#[test]
fn default_timestamp_overflow_is_detected_before_the_request_is_built() {
    let largest = options(&["--height", "18446744073709551"]);
    assert!(!default_timestamp_overflows(&largest, "height", "timestamp"));
    match client_action("produce-block", &largest).unwrap() {
        ClientAction::Query(ClientRequest::ProduceBlock { height, timestamp }) => {
            assert_eq!((height, timestamp), (18446744073709551, 18446744073709551000));
        }
        other => panic!("unexpected action {other:?}"),
    }
    assert!(default_timestamp_overflows(&options(&["--height", "18446744073709552"]), "height", "timestamp"));
    assert!(default_timestamp_overflows(
        &options(&["--produce-height", "18446744073709552", "--produce-timestamp", "7"]),
        "produce-height",
        "produce-timestamp"
    ));
    assert!(!default_timestamp_overflows(
        &options(&["--produce-height", "18446744073709552", "--produce-timestamp", "x"]),
        "produce-height",
        "produce-timestamp"
    ));
    assert!(!default_timestamp_overflows(&options(&[]), "produce-height", "produce-timestamp"));
}
