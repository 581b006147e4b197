//! The commands of the DeTTa node binary: which command a command line
//! names, the settings each takes from its options, and the faucet
//! transfer it prints.
use crate::client_command::{ArgView, Argument, ClientTransaction, Method, TxView};
use crate::node_cli::{node_int_error, node_options_spec, parse_u128, parse_u64, parse_usize, ParsedOptions, NODE_USAGE_TEXT};
use crate::numeric::{decimal_spec, parse_unsigned_spec, push_decimal};
use crate::options::{entries_map, string_views};
use crate::text::{concat_str, owned, str_eq};
use vstd::prelude::*;

verus! {

/// The chain id used when `--chain-id` is not given.
pub const NODE_DEFAULT_CHAIN_ID: &'static str = "detta-local";

/// The validator id used when `--validator-id` is not given.
pub const DEFAULT_VALIDATOR_ID: &'static str = "validator-1";

/// The RPC address used when `--rpc` is not given.
pub const NODE_DEFAULT_RPC_ADDR: &'static str = "127.0.0.1:8080";

/// The only genesis preset.
pub const DEFAULT_PRESET: &'static str = "defi-demo";

/// The token the faucet pays out of when `--token` is not given.
pub const DEFAULT_TOKEN_CONTRACT: &'static str = "TokenA";

/// The asset the faucet pays when `--asset` is not given.
pub const DEFAULT_USDC: &'static str = "USDC";

/// The faucet account used when `--faucet` is not given.
pub const DEFAULT_FAUCET: &'static str = "Faucet";

/// What a node command line asks for.
pub enum NodeInvocation {
    WriteGenesis(ParsedOptions),
    Serve(ParsedOptions),
    FaucetTx(ParsedOptions),
    Help,
}

/// How the node binary starts for command line `args` (the program name
/// first): the usage as an error without a command; otherwise the options
/// are read first, then the command is chosen, and an unknown command is
/// reported with the usage.
pub fn plan_node_run(args: &[String]) -> (result: Result<NodeInvocation, String>)
    ensures
        args@.len() < 2 ==> (result matches Err(e) && e@ == NODE_USAGE_TEXT@),
        args@.len() >= 2 ==> match node_options_spec(string_views(args@.skip(2))) {
            Err(m) => result matches Err(e) && e@ == m,
            Ok(parsed) => {
                let command = args@[1]@;
                if command == "write-genesis"@ {
                    result matches Ok(NodeInvocation::WriteGenesis(o)) && o@ == entries_map(parsed.0)
                } else if command == "serve"@ {
                    result matches Ok(NodeInvocation::Serve(o)) && o@ == entries_map(parsed.0)
                } else if command == "faucet-tx"@ {
                    result matches Ok(NodeInvocation::FaucetTx(o)) && o@ == entries_map(parsed.0)
                } else if command == "-h"@ || command == "--help"@ || command == "help"@ {
                    result matches Ok(NodeInvocation::Help)
                } else {
                    result matches Err(e) && e@ == "unknown command: "@ + command + "\n\n"@
                        + NODE_USAGE_TEXT@
                }
            },
        },
{
    if args.len() < 2 {
        return Err(crate::node_cli::usage());
    }
    let rest = vstd::slice::slice_subrange(args, 2, args.len());
    assert(rest@ =~= args@.skip(2));
    let options = match ParsedOptions::parse(rest) {
        Ok(o) => o,
        Err(e) => {
            return Err(e);
        },
    };
    let command = args[1].as_str();
    if str_eq(command, "write-genesis") {
        Ok(NodeInvocation::WriteGenesis(options))
    } else if str_eq(command, "serve") {
        Ok(NodeInvocation::Serve(options))
    } else if str_eq(command, "faucet-tx") {
        Ok(NodeInvocation::FaucetTx(options))
    } else if str_eq(command, "-h") || str_eq(command, "--help") || str_eq(command, "help") {
        Ok(NodeInvocation::Help)
    } else {
        let mut message = concat_str("unknown command: ", command);
        message.append("\n\n");
        message.append(NODE_USAGE_TEXT);
        Err(message)
    }
}

/// The value of the node option `name`, or the error naming it as missing.
pub open spec fn node_required_spec(opts: Map<Seq<char>, Seq<char>>, name: Seq<char>) -> Result<
    Seq<char>,
    Seq<char>,
> {
    if opts.dom().contains(name) {
        Ok(opts[name])
    } else {
        Err("missing required --"@ + name)
    }
}

/// The value of the node option `name`, or `default`.
pub open spec fn node_value_or(opts: Map<Seq<char>, Seq<char>>, name: Seq<char>, default: Seq<char>) -> Seq<char> {
    if opts.dom().contains(name) {
        opts[name]
    } else {
        default
    }
}

/// The integer value (at most `max`, named `type_label` in errors) of the
/// node option `name`, if it is given.
pub open spec fn node_optional_int(
    opts: Map<Seq<char>, Seq<char>>,
    name: Seq<char>,
    max: int,
    type_label: Seq<char>,
) -> Result<Option<int>, Seq<char>> {
    if !opts.dom().contains(name) {
        Ok(None)
    } else {
        match parse_unsigned_spec(opts[name], max) {
            Ok(v) => Ok(Some(v)),
            Err(_) => Err(node_int_error(name, type_label, opts[name])),
        }
    }
}

/// Where `write-genesis` writes and for which chain.
pub struct GenesisSettings {
    pub output: String,
    pub chain_id: String,
}

/// The settings of `write-genesis`: `--output` is required, `--chain-id`
/// defaults to `detta-local`, and `--preset` must be `defi-demo`.
pub fn genesis_settings(options: &ParsedOptions) -> (result: Result<GenesisSettings, String>)
    ensures
        match node_required_spec(options@, "output"@) {
            Err(m) => result matches Err(e) && e@ == m,
            Ok(output) => {
                let preset = node_value_or(options@, "preset"@, DEFAULT_PRESET@);
                if preset != DEFAULT_PRESET@ {
                    result matches Err(e) && e@ == "unsupported genesis preset: "@ + preset
                        + "; supported preset: "@ + DEFAULT_PRESET@
                } else {
                    result matches Ok(s) && s.output@ == output && s.chain_id@ == node_value_or(
                        options@,
                        "chain-id"@,
                        NODE_DEFAULT_CHAIN_ID@,
                    )
                }
            },
        },
{
    let output = match options.required("output") {
        Ok(o) => o,
        Err(e) => {
            return Err(e);
        },
    };
    let chain_id = options.value_or("chain-id", NODE_DEFAULT_CHAIN_ID);
    let preset = options.value_or("preset", DEFAULT_PRESET);
    if !str_eq(preset.as_str(), DEFAULT_PRESET) {
        let mut message = concat_str("unsupported genesis preset: ", preset.as_str());
        message.append("; supported preset: ");
        message.append(DEFAULT_PRESET);
        return Err(message);
    }
    Ok(GenesisSettings { output, chain_id })
}

/// What `serve` reads from its options before it starts the node.
pub struct ServeSettings {
    pub storage: String,
    pub validator_id: String,
    pub rpc_addr: String,
    pub transport: String,
    pub max_connections: usize,
    pub genesis: Option<String>,
}

/// The settings of `serve`: `--storage` is required; `--validator-id`,
/// `--rpc`, `--transport` and `--max-connections` have defaults.
pub fn serve_settings(options: &ParsedOptions) -> (result: Result<ServeSettings, String>)
    ensures
        match node_required_spec(options@, "storage"@) {
            Err(m) => result matches Err(e) && e@ == m,
            Ok(storage) => match node_optional_int(
                options@,
                "max-connections"@,
                usize::MAX as int,
                "usize"@,
            ) {
                Err(m) => result matches Err(e) && e@ == m,
                Ok(max) => result matches Ok(s) && s.storage@ == storage && s.validator_id@
                    == node_value_or(options@, "validator-id"@, DEFAULT_VALIDATOR_ID@) && s.rpc_addr@
                    == node_value_or(options@, "rpc"@, NODE_DEFAULT_RPC_ADDR@) && s.transport@
                    == node_value_or(options@, "transport"@, "tcp"@) && s.max_connections == match max {
                    Some(v) => v as usize,
                    None => 0usize,
                } && (s.genesis is Some <==> options@.dom().contains("genesis"@)) && (
                s.genesis matches Some(g) ==> g@ == options@["genesis"@]),
            },
        },
{
    let storage = match options.required("storage") {
        Ok(s) => s,
        Err(e) => {
            return Err(e);
        },
    };
    let validator_id = options.value_or("validator-id", DEFAULT_VALIDATOR_ID);
    let rpc_addr = options.value_or("rpc", NODE_DEFAULT_RPC_ADDR);
    let transport = options.value_or("transport", "tcp");
    let max_connections = match options.optional("max-connections") {
        Some(v) => match parse_usize(v.as_str(), "max-connections") {
            Ok(n) => n,
            Err(e) => {
                return Err(e);
            },
        },
        None => 0,
    };
    let genesis = options.optional("genesis");
    Ok(ServeSettings { storage, validator_id, rpc_addr, transport, max_connections, genesis })
}

/// The RPC transports the node serves.
#[derive(Clone, Copy, Debug, PartialEq, Eq, Structural)]
pub enum RpcTransport {
    Tcp,
    Http,
}

/// The transport that `transport` names: `tcp` or `http`.
pub fn rpc_transport(transport: &str) -> (result: Result<RpcTransport, String>)
    ensures
        transport@ == "tcp"@ ==> result == Ok::<RpcTransport, String>(RpcTransport::Tcp),
        transport@ == "http"@ ==> result == Ok::<RpcTransport, String>(RpcTransport::Http),
        transport@ != "tcp"@ && transport@ != "http"@ ==> (result matches Err(e) && e@
            == "unsupported transport: "@ + transport@ + "; supported transports: tcp, http"@),
{
    proof {
        reveal_strlit("tcp");
        reveal_strlit("http");
        assert("tcp"@.len() != "http"@.len());
    }
    if str_eq(transport, "tcp") {
        Ok(RpcTransport::Tcp)
    } else if str_eq(transport, "http") {
        Ok(RpcTransport::Http)
    } else {
        let mut message = concat_str("unsupported transport: ", transport);
        message.append("; supported transports: tcp, http");
        Err(message)
    }
}

/// Whether the RPC loop serves another connection after `served`: always
/// when `max_connections` is zero, otherwise until it has served that many.
pub fn keep_serving(max_connections: usize, served: usize) -> (more: bool)
    ensures
        more == (max_connections == 0 || served < max_connections),
{
    max_connections == 0 || served < max_connections
}

/// How the node starts from its storage directory.
#[derive(Debug)]
pub enum NodeStartup {
    /// Restart from the snapshot in storage.
    Restart,
    /// Bootstrap from the genesis file at this path.
    Bootstrap(String),
}

/// Restart when the storage holds a snapshot; otherwise bootstrap, which
/// needs `--genesis`.
pub fn node_startup(storage_has_snapshot: bool, genesis: Option<String>) -> (result: Result<
    NodeStartup,
    String,
>)
    ensures
        storage_has_snapshot ==> (result matches Ok(NodeStartup::Restart)),
        !storage_has_snapshot && genesis is None ==> (result matches Err(e) && e@
            == "missing --genesis; it is required when --storage does not contain a snapshot"@),
        !storage_has_snapshot && genesis is Some ==> (result matches Ok(NodeStartup::Bootstrap(g))
            && g@ == genesis->0@),
{
    if storage_has_snapshot {
        return Ok(NodeStartup::Restart);
    }
    match genesis {
        Some(g) => Ok(NodeStartup::Bootstrap(g)),
        None => Err(
            owned("missing --genesis; it is required when --storage does not contain a snapshot"),
        ),
    }
}

/// The faucet transfer that `faucet-tx` describes.
pub open spec fn faucet_spec(opts: Map<Seq<char>, Seq<char>>) -> Result<TxView, Seq<char>> {
    match node_required_spec(opts, "to"@) {
        Err(e) => Err(e),
        Ok(to) => match node_required_spec(opts, "amount"@) {
            Err(e) => Err(e),
            Ok(amount_text) => match parse_unsigned_spec(amount_text, u128::MAX as int) {
                Err(_) => Err(node_int_error("amount"@, "u128"@, amount_text)),
                Ok(amount) => match node_optional_int(opts, "nonce"@, u64::MAX as int, "u64"@) {
                    Err(e) => Err(e),
                    Ok(n) => {
                        let nonce: u64 = match n {
                            Some(v) => v as u64,
                            None => 1u64,
                        };
                        match node_optional_int(opts, "valid-until-height"@, u64::MAX as int, "u64"@) {
                            Err(e) => Err(e),
                            Ok(valid_until) => match node_optional_int(
                                opts,
                                "budget"@,
                                u64::MAX as int,
                                "u64"@,
                            ) {
                                Err(e) => Err(e),
                                Ok(budget) => Ok(
                                    TxView {
                                        chain_id: node_value_or(opts, "chain-id"@, NODE_DEFAULT_CHAIN_ID@),
                                        tx_hash: if opts.dom().contains("tx-hash"@) {
                                            opts["tx-hash"@]
                                        } else {
                                            "faucet-"@ + to + "-"@ + decimal_spec(nonce as nat)
                                        },
                                        sender: node_value_or(opts, "faucet"@, DEFAULT_FAUCET@),
                                        nonce,
                                        valid_until_height: match valid_until {
                                            Some(v) => Some(v as u64),
                                            None => None,
                                        },
                                        target: node_value_or(opts, "token"@, DEFAULT_TOKEN_CONTRACT@),
                                        method: Method::Transfer,
                                        args: seq![
                                            ArgView::Principal(to),
                                            ArgView::Asset(node_value_or(opts, "asset"@, DEFAULT_USDC@)),
                                            ArgView::Amount(amount as u128),
                                        ],
                                        signature_ok: true,
                                        budget: match budget {
                                            Some(b) => b as u64,
                                            None => 1000000u64,
                                        },
                                    },
                                ),
                            },
                        }
                    },
                },
            },
        },
    }
}

/// The transfer that `faucet-tx` prints: `--amount` of `--asset` (USDC)
/// from the faucet account to `--to`, on token `--token` (TokenA).
pub fn faucet_transaction(options: &ParsedOptions) -> (result: Result<ClientTransaction, String>)
    ensures
        match faucet_spec(options@) {
            Ok(v) => result matches Ok(t) && t@ == v,
            Err(m) => result matches Err(e) && e@ == m,
        },
{
    let to = match options.required("to") {
        Ok(t) => t,
        Err(e) => {
            return Err(e);
        },
    };
    let amount_text = match options.required("amount") {
        Ok(a) => a,
        Err(e) => {
            return Err(e);
        },
    };
    let amount = match parse_u128(amount_text.as_str(), "amount") {
        Ok(a) => a,
        Err(e) => {
            return Err(e);
        },
    };
    let nonce = match options.optional("nonce") {
        Some(v) => match parse_u64(v.as_str(), "nonce") {
            Ok(n) => n,
            Err(e) => {
                return Err(e);
            },
        },
        None => 1,
    };
    let tx_hash = match options.optional("tx-hash") {
        Some(h) => h,
        None => {
            let mut h = concat_str("faucet-", to.as_str());
            h.append("-");
            push_decimal(&mut h, nonce);
            h
        },
    };
    let valid_until_height = match options.optional("valid-until-height") {
        Some(v) => match parse_u64(v.as_str(), "valid-until-height") {
            Ok(n) => Some(n),
            Err(e) => {
                return Err(e);
            },
        },
        None => None,
    };
    let budget = match options.optional("budget") {
        Some(v) => match parse_u64(v.as_str(), "budget") {
            Ok(n) => n,
            Err(e) => {
                return Err(e);
            },
        },
        None => 1000000,
    };
    let asset = options.value_or("asset", DEFAULT_USDC);
    let args = vec![Argument::Principal(to), Argument::Asset(asset), Argument::Amount(amount)];
    assert(args@.map_values(|a: Argument| a@) =~= seq![
        ArgView::Principal(args@[0]->Principal_0@),
        ArgView::Asset(args@[1]->Asset_0@),
        ArgView::Amount(amount),
    ]);
    Ok(
        ClientTransaction {
            chain_id: options.value_or("chain-id", NODE_DEFAULT_CHAIN_ID),
            tx_hash,
            sender: options.value_or("faucet", DEFAULT_FAUCET),
            nonce,
            valid_until_height,
            target: options.value_or("token", DEFAULT_TOKEN_CONTRACT),
            method: Method::Transfer,
            args,
            signature_ok: true,
            budget,
        },
    )
}

} // verus!
