use detta_node::client_command::{Argument, Method};
use detta_node::node_cli::{usage, ParsedOptions};
use detta_node::node_command::{
    faucet_transaction, genesis_settings, keep_serving, node_startup, plan_node_run,
    rpc_transport, serve_settings, NodeInvocation, NodeStartup, RpcTransport, DEFAULT_FAUCET,
    DEFAULT_TOKEN_CONTRACT,
};

fn strings(items: &[&str]) -> Vec<String> {
    items.iter().map(|s| s.to_string()).collect()
}

fn options(items: &[&str]) -> ParsedOptions {
    ParsedOptions::parse(&strings(items)).unwrap()
}

#[test]
fn faucet_transaction_shape_is_transfer() {
    let options = ParsedOptions::parse(&[
        "--to".into(),
        "Alice".into(),
        "--amount".into(),
        "25".into(),
    ])
    .unwrap();
    let transaction = faucet_transaction(&options).unwrap();

    assert_eq!(transaction.sender, DEFAULT_FAUCET);
    assert_eq!(transaction.target, DEFAULT_TOKEN_CONTRACT);
    assert_eq!(transaction.method, Method::Transfer);
}

#[test]
fn faucet_transaction_fills_defaults_and_reads_overrides() {
    let tx = faucet_transaction(&options(&["--to", "Alice", "--amount", "25"])).unwrap();
    assert_eq!(tx.tx_hash, "faucet-Alice-1");
    assert_eq!(tx.nonce, 1);
    assert_eq!(tx.chain_id, "detta-local");
    assert_eq!(tx.budget, 1_000_000);
    assert_eq!(tx.valid_until_height, None);
    assert_eq!(
        tx.args,
        vec![Argument::Principal("Alice".into()), Argument::Asset("USDC".into()), Argument::Amount(25)]
    );
    let tx = faucet_transaction(&options(&[
        "--to", "Bob", "--amount", "3", "--nonce", "9", "--asset", "ATOM", "--budget", "5",
        "--valid-until-height", "12", "--chain-id", "faucet-test",
    ]))
    .unwrap();
    assert_eq!(tx.tx_hash, "faucet-Bob-9");
    assert_eq!(tx.chain_id, "faucet-test");
    assert_eq!(tx.budget, 5);
    assert_eq!(tx.valid_until_height, Some(12));
    assert_eq!(tx.args[1], Argument::Asset("ATOM".into()));
    assert_eq!(
        faucet_transaction(&options(&["--amount", "1"])).err(),
        Some("missing required --to".to_string())
    );
    assert_eq!(
        faucet_transaction(&options(&["--to", "A", "--amount", "lots"])).err(),
        Some("invalid --amount: expected u128, got lots".to_string())
    );
}

#[test]
fn node_run_plan_reads_options_before_the_command() {
    assert_eq!(plan_node_run(&strings(&["detta-node"])).err(), Some(usage()));
    assert!(matches!(plan_node_run(&strings(&["detta-node", "serve", "--storage", "d"])), Ok(NodeInvocation::Serve(_))));
    assert!(matches!(plan_node_run(&strings(&["detta-node", "help"])), Ok(NodeInvocation::Help)));
    assert!(matches!(plan_node_run(&strings(&["detta-node", "faucet-tx"])), Ok(NodeInvocation::FaucetTx(_))));
    assert!(matches!(plan_node_run(&strings(&["detta-node", "write-genesis"])), Ok(NodeInvocation::WriteGenesis(_))));
    assert_eq!(
        plan_node_run(&strings(&["detta-node", "help", "stray"])).err(),
        Some("expected option starting with --, got stray".to_string())
    );
    assert_eq!(
        plan_node_run(&strings(&["detta-node", "launch"])).err(),
        Some(format!("unknown command: launch\n\n{}", usage()))
    );
}

#[test]
fn genesis_settings_accept_only_the_demo_preset() {
    let settings = genesis_settings(&options(&["--output", "g.json"])).unwrap();
    assert_eq!(settings.output, "g.json");
    assert_eq!(settings.chain_id, "detta-local");
    assert_eq!(
        genesis_settings(&options(&["--output", "g.json", "--preset", "empty"])).err(),
        Some("unsupported genesis preset: empty; supported preset: defi-demo".to_string())
    );
    assert_eq!(genesis_settings(&options(&[])).err(), Some("missing required --output".to_string()));
}

#[test]
fn serve_settings_have_defaults() {
    let settings = serve_settings(&options(&["--storage", "dir", "--genesis", "g.json"])).unwrap();
    assert_eq!(settings.storage, "dir");
    assert_eq!(settings.validator_id, "validator-1");
    assert_eq!(settings.rpc_addr, "127.0.0.1:8080");
    assert_eq!(settings.transport, "tcp");
    assert_eq!(settings.max_connections, 0);
    assert_eq!(settings.genesis, Some("g.json".to_string()));
    assert_eq!(
        serve_settings(&options(&["--storage", "dir", "--max-connections", "x"])).err(),
        Some("invalid --max-connections: expected usize, got x".to_string())
    );
    assert_eq!(rpc_transport("tcp"), Ok(RpcTransport::Tcp));
    assert_eq!(rpc_transport("http"), Ok(RpcTransport::Http));
    assert_eq!(
        rpc_transport("udp"),
        Err("unsupported transport: udp; supported transports: tcp, http".to_string())
    );
}

#[test]
fn serving_loop_and_startup_decisions() {
    assert!(keep_serving(0, 1_000));
    assert!(keep_serving(2, 1));
    assert!(!keep_serving(2, 2));
    assert!(matches!(node_startup(true, None), Ok(NodeStartup::Restart)));
    assert!(matches!(node_startup(false, Some("g".into())), Ok(NodeStartup::Bootstrap(g)) if g == "g"));
    assert_eq!(
        node_startup(false, None).err(),
        Some("missing --genesis; it is required when --storage does not contain a snapshot".to_string())
    );
}
