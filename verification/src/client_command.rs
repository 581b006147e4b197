//! The commands of the DeTTa RPC client: how a command line becomes the
//! transaction or the RPC request that the client sends.
use crate::client_cli::{
    client_int_error, client_options_spec, parse_csv_option, parse_da_retention_class, parse_u128,
    parse_u32, parse_u64, retention_class_spec, DaRetentionClass, ParsedOptions,
};
use crate::numeric::{
    decimal_spec, lemma_parse_unsigned_range, parse_unsigned_spec, push_decimal, IntErrorKind,
};
use crate::options::string_views;
use crate::text::{concat_str, csv_items_spec, owned, str_eq, views};
use vstd::prelude::*;

verus! {

/// The RPC address used when `--rpc` is not given.
pub const DEFAULT_RPC_ADDR: &'static str = "127.0.0.1:8080";

/// The chain id used when `--chain-id` is not given.
pub const DEFAULT_CHAIN_ID: &'static str = "detta-local";

/// The factory contract used when `--factory` is not given.
pub const DEFAULT_FACTORY_CONTRACT: &'static str = "FactoryA";

/// The pool contract used when `--pool` is not given.
pub const DEFAULT_POOL_CONTRACT: &'static str = "PoolAB";

/// The sender used when `--sender` is not given.
pub const DEFAULT_SENDER: &'static str = "Alice";

/// The budget used when `--budget` is not given.
pub const DEFAULT_BUDGET: u64 = 1000000;

/// The DA share size used when `--share-size` is not given.
pub const DEFAULT_DA_SHARE_SIZE_BYTES: u32 = 128;

/// The contract methods that the client's and the faucet's transactions
/// call.
#[derive(Clone, Copy, Debug, PartialEq, Eq, Structural)]
pub enum Method {
    DeployToken,
    DeployAmmPool,
    AddLiquidity,
    Swap,
    Transfer,
}

/// An argument of a contract call.
#[derive(Debug, PartialEq, Eq)]
pub enum Argument {
    Text(String),
    Asset(String),
    Principal(String),
    Amount(u128),
}

/// The content of an argument.
pub enum ArgView {
    Text(Seq<char>),
    Asset(Seq<char>),
    Principal(Seq<char>),
    Amount(u128),
}

impl View for Argument {
    type V = ArgView;

    open spec fn view(&self) -> ArgView {
        match self {
            Argument::Text(s) => ArgView::Text(s@),
            Argument::Asset(s) => ArgView::Asset(s@),
            Argument::Principal(s) => ArgView::Principal(s@),
            Argument::Amount(a) => ArgView::Amount(*a),
        }
    }
}

/// A transaction that the client submits.
#[derive(Debug)]
pub struct ClientTransaction {
    pub chain_id: String,
    pub tx_hash: String,
    pub sender: String,
    pub nonce: u64,
    pub valid_until_height: Option<u64>,
    pub target: String,
    pub method: Method,
    pub args: Vec<Argument>,
    pub signature_ok: bool,
    pub budget: u64,
}

/// The content of a transaction.
pub struct TxView {
    pub chain_id: Seq<char>,
    pub tx_hash: Seq<char>,
    pub sender: Seq<char>,
    pub nonce: u64,
    pub valid_until_height: Option<u64>,
    pub target: Seq<char>,
    pub method: Method,
    pub args: Seq<ArgView>,
    pub signature_ok: bool,
    pub budget: u64,
}

impl View for ClientTransaction {
    type V = TxView;

    open spec fn view(&self) -> TxView {
        TxView {
            chain_id: self.chain_id@,
            tx_hash: self.tx_hash@,
            sender: self.sender@,
            nonce: self.nonce,
            valid_until_height: self.valid_until_height,
            target: self.target@,
            method: self.method,
            args: self.args@.map_values(|a: Argument| a@),
            signature_ok: self.signature_ok,
            budget: self.budget,
        }
    }
}

/// The value of option `key`, or the error that names it as missing.
pub open spec fn required_spec(opts: Map<Seq<char>, Seq<char>>, key: Seq<char>) -> Result<
    Seq<char>,
    Seq<char>,
> {
    if opts.dom().contains(key) {
        Ok(opts[key])
    } else {
        Err("missing required option --"@ + key)
    }
}

/// The value of option `key`, or `default`.
pub open spec fn value_or_spec(
    opts: Map<Seq<char>, Seq<char>>,
    key: Seq<char>,
    default: Seq<char>,
) -> Seq<char> {
    if opts.dom().contains(key) {
        opts[key]
    } else {
        default
    }
}

/// The integer that `value` of option `label` gives, at most `max`.
pub open spec fn int_value_spec(value: Seq<char>, label: Seq<char>, max: int) -> Result<
    int,
    Seq<char>,
> {
    match parse_unsigned_spec(value, max) {
        Ok(v) => Ok(v),
        Err(kind) => Err(client_int_error(label, kind)),
    }
}

/// The integer value of the required option `key`.
pub open spec fn required_int_spec(opts: Map<Seq<char>, Seq<char>>, key: Seq<char>, max: int) -> Result<
    int,
    Seq<char>,
> {
    match required_spec(opts, key) {
        Err(e) => Err(e),
        Ok(v) => int_value_spec(v, key, max),
    }
}

/// The integer value of option `key`, if it is given.
pub open spec fn optional_int_spec(opts: Map<Seq<char>, Seq<char>>, key: Seq<char>, max: int) -> Result<
    Option<int>,
    Seq<char>,
> {
    if !opts.dom().contains(key) {
        Ok(None)
    } else {
        match int_value_spec(opts[key], key, max) {
            Ok(v) => Ok(Some(v)),
            Err(e) => Err(e),
        }
    }
}

/// The transaction around a contract call: chain id, hash (by default
/// `prefix-sender-nonce`), expiry and budget come from the options.
pub open spec fn base_tx_spec(
    opts: Map<Seq<char>, Seq<char>>,
    prefix: Seq<char>,
    sender: Seq<char>,
    nonce: u64,
    target: Seq<char>,
    method: Method,
    args: Seq<ArgView>,
) -> Result<TxView, Seq<char>> {
    match optional_int_spec(opts, "valid-until-height"@, u64::MAX as int) {
        Err(e) => Err(e),
        Ok(valid_until) => match optional_int_spec(opts, "budget"@, u64::MAX as int) {
            Err(e) => Err(e),
            Ok(budget) => Ok(
                TxView {
                    chain_id: value_or_spec(opts, "chain-id"@, DEFAULT_CHAIN_ID@),
                    tx_hash: if opts.dom().contains("tx-hash"@) {
                        opts["tx-hash"@]
                    } else {
                        prefix + "-"@ + sender + "-"@ + decimal_spec(nonce as nat)
                    },
                    sender,
                    nonce,
                    valid_until_height: match valid_until {
                        Some(v) => Some(v as u64),
                        None => None,
                    },
                    target,
                    method,
                    args,
                    signature_ok: true,
                    budget: match budget {
                        Some(b) => b as u64,
                        None => DEFAULT_BUDGET,
                    },
                },
            ),
        },
    }
}

/// The `deploy-token` transaction that the options describe.
pub open spec fn deploy_token_spec(opts: Map<Seq<char>, Seq<char>>) -> Result<TxView, Seq<char>> {
    match required_spec(opts, "contract"@) {
        Err(e) => Err(e),
        Ok(contract) => {
            let sender = value_or_spec(opts, "sender"@, DEFAULT_SENDER@);
            match required_int_spec(opts, "nonce"@, u64::MAX as int) {
                Err(e) => Err(e),
                Ok(nonce) => match required_spec(opts, "asset"@) {
                    Err(e) => Err(e),
                    Ok(asset) => match required_int_spec(opts, "initial-supply"@, u128::MAX as int) {
                        Err(e) => Err(e),
                        Ok(supply) => base_tx_spec(
                            opts,
                            "deploy-token"@,
                            sender,
                            nonce as u64,
                            value_or_spec(opts, "factory"@, DEFAULT_FACTORY_CONTRACT@),
                            Method::DeployToken,
                            seq![
                                ArgView::Text(contract),
                                ArgView::Asset(asset),
                                ArgView::Principal(value_or_spec(opts, "initial-holder"@, sender)),
                                ArgView::Amount(supply as u128),
                            ],
                        ),
                    },
                },
            }
        },
    }
}

/// The value of option `key`, or `default` when it is not given.
pub open spec fn option_or(opts: Map<Seq<char>, Seq<char>>, key: Seq<char>, default: Seq<char>) -> Seq<
    char,
> {
    if opts.dom().contains(key) {
        opts[key]
    } else {
        default
    }
}

/// The fields every built transaction shares: chain id, sender, nonce,
/// budget and expiry come from their options or their defaults, the hash
/// (unless `--tx-hash` is given) names `command`, the sender and the nonce,
/// and the transaction counts as signed.
pub open spec fn common_fields(opts: Map<Seq<char>, Seq<char>>, command: Seq<char>, t: TxView) -> bool {
    &&& t.chain_id == option_or(opts, "chain-id"@, DEFAULT_CHAIN_ID@)
    &&& t.sender == option_or(opts, "sender"@, DEFAULT_SENDER@)
    &&& opts.dom().contains("nonce"@)
    &&& parse_unsigned_spec(opts["nonce"@], u64::MAX as int) == Ok::<int, IntErrorKind>(
        t.nonce as int,
    )
    &&& !opts.dom().contains("budget"@) ==> t.budget == DEFAULT_BUDGET
    &&& opts.dom().contains("budget"@) ==> parse_unsigned_spec(opts["budget"@], u64::MAX as int)
        == Ok::<int, IntErrorKind>(t.budget as int)
    &&& !opts.dom().contains("valid-until-height"@) ==> t.valid_until_height is None
    &&& opts.dom().contains("valid-until-height"@) ==> t.valid_until_height is Some
        && parse_unsigned_spec(opts["valid-until-height"@], u64::MAX as int) == Ok::<
        int,
        IntErrorKind,
    >(t.valid_until_height->Some_0 as int)
    &&& t.tx_hash == if opts.dom().contains("tx-hash"@) {
        opts["tx-hash"@]
    } else {
        command + "-"@ + t.sender + "-"@ + decimal_spec(t.nonce as nat)
    }
    &&& t.signature_ok
}

/// The amount that option `key` holds.
pub open spec fn amount_option(opts: Map<Seq<char>, Seq<char>>, key: Seq<char>) -> Option<u128> {
    if opts.dom().contains(key) {
        match parse_unsigned_spec(opts[key], u128::MAX as int) {
            Ok(v) => Some(v as u128),
            Err(_) => None,
        }
    } else {
        None
    }
}

proof fn lemma_parsed_in_range(opts: Map<Seq<char>, Seq<char>>)
    ensures
        forall|key: Seq<char>, max: int|
            #![trigger parse_unsigned_spec(opts[key], max)]
            0 <= max && opts.dom().contains(key) ==> (parse_unsigned_spec(opts[key], max) matches Ok(
                v,
            ) ==> 0 <= v <= max),
{
    assert forall|key: Seq<char>, max: int|
        #![trigger parse_unsigned_spec(opts[key], max)]
        0 <= max && opts.dom().contains(key) implies (parse_unsigned_spec(opts[key], max) matches Ok(
        v,
    ) ==> 0 <= v <= max) by {
        lemma_parse_unsigned_range(opts[key], max);
    }
}

/// What a built `deploy-token` transaction holds: besides the common
/// fields, it goes to `--factory` (by default the default factory) as a
/// token deployment whose arguments are the contract, the asset, the
/// initial holder and the supply, the initial holder being
/// `--initial-holder` when given and otherwise the transaction's own
/// sender. It is built only when the contract, the asset, the nonce and the
/// initial supply are all given.
pub proof fn deploy_token_law(opts: Map<Seq<char>, Seq<char>>)
    ensures
        deploy_token_spec(opts) matches Ok(t) ==> {
            &&& common_fields(opts, "deploy-token"@, t)
            &&& opts.dom().contains("contract"@) && opts.dom().contains("asset"@)
            &&& t.target == option_or(opts, "factory"@, DEFAULT_FACTORY_CONTRACT@)
            &&& t.method == Method::DeployToken
            &&& t.args.len() == 4
            &&& t.args[0] == ArgView::Text(opts["contract"@])
            &&& t.args[1] == ArgView::Asset(opts["asset"@])
            &&& t.args[2] == ArgView::Principal(option_or(opts, "initial-holder"@, t.sender))
            &&& amount_option(opts, "initial-supply"@) matches Some(supply) && t.args[3]
                == ArgView::Amount(supply)
            &&& !opts.dom().contains("initial-holder"@) ==> t.args[2] == ArgView::Principal(t.sender)
        },
{
    lemma_parsed_in_range(opts);
}

/// What a built `deploy-pool` transaction holds: besides the common
/// fields, it goes to `--factory` (by default the default factory) as a
/// pool deployment whose arguments are the contract and the two assets.
pub proof fn deploy_pool_law(opts: Map<Seq<char>, Seq<char>>)
    ensures
        deploy_pool_spec(opts) matches Ok(t) ==> {
            &&& common_fields(opts, "deploy-pool"@, t)
            &&& opts.dom().contains("contract"@) && opts.dom().contains("asset-a"@)
                && opts.dom().contains("asset-b"@)
            &&& t.target == option_or(opts, "factory"@, DEFAULT_FACTORY_CONTRACT@)
            &&& t.method == Method::DeployAmmPool
            &&& t.args == seq![
                ArgView::Text(opts["contract"@]),
                ArgView::Asset(opts["asset-a"@]),
                ArgView::Asset(opts["asset-b"@]),
            ]
        },
{
    lemma_parsed_in_range(opts);
}

/// What a built `add-liquidity` transaction holds: besides the common
/// fields, it goes to `--pool` (by default the default pool) adding the two
/// amounts given, asset A's first.
pub proof fn add_liquidity_law(opts: Map<Seq<char>, Seq<char>>)
    ensures
        add_liquidity_spec(opts) matches Ok(t) ==> {
            &&& common_fields(opts, "add-liquidity"@, t)
            &&& t.target == option_or(opts, "pool"@, DEFAULT_POOL_CONTRACT@)
            &&& t.method == Method::AddLiquidity
            &&& amount_option(opts, "asset-a-amount"@) matches Some(a)
            &&& amount_option(opts, "asset-b-amount"@) matches Some(b)
            &&& t.args == seq![ArgView::Amount(a), ArgView::Amount(b)]
        },
{
    lemma_parsed_in_range(opts);
}

/// What a built `swap` transaction holds: besides the common fields, it
/// goes to `--pool` (by default the default pool) swapping `--amount-in`
/// of `--input-asset` for at least `--min-output`.
pub proof fn swap_law(opts: Map<Seq<char>, Seq<char>>)
    ensures
        swap_spec(opts) matches Ok(t) ==> {
            &&& common_fields(opts, "swap"@, t)
            &&& opts.dom().contains("input-asset"@)
            &&& t.target == option_or(opts, "pool"@, DEFAULT_POOL_CONTRACT@)
            &&& t.method == Method::Swap
            &&& amount_option(opts, "amount-in"@) matches Some(amount_in)
            &&& amount_option(opts, "min-output"@) matches Some(min_output)
            &&& t.args == seq![
                ArgView::Asset(opts["input-asset"@]),
                ArgView::Amount(amount_in),
                ArgView::Amount(min_output),
            ]
        },
{
    lemma_parsed_in_range(opts);
}

/// The `deploy-pool` transaction that the options describe.
pub open spec fn deploy_pool_spec(opts: Map<Seq<char>, Seq<char>>) -> Result<TxView, Seq<char>> {
    match required_spec(opts, "contract"@) {
        Err(e) => Err(e),
        Ok(contract) => {
            let sender = value_or_spec(opts, "sender"@, DEFAULT_SENDER@);
            match required_int_spec(opts, "nonce"@, u64::MAX as int) {
                Err(e) => Err(e),
                Ok(nonce) => match required_spec(opts, "asset-a"@) {
                    Err(e) => Err(e),
                    Ok(asset_a) => match required_spec(opts, "asset-b"@) {
                        Err(e) => Err(e),
                        Ok(asset_b) => base_tx_spec(
                            opts,
                            "deploy-pool"@,
                            sender,
                            nonce as u64,
                            value_or_spec(opts, "factory"@, DEFAULT_FACTORY_CONTRACT@),
                            Method::DeployAmmPool,
                            seq![
                                ArgView::Text(contract),
                                ArgView::Asset(asset_a),
                                ArgView::Asset(asset_b),
                            ],
                        ),
                    },
                },
            }
        },
    }
}

/// The `add-liquidity` transaction that the options describe.
pub open spec fn add_liquidity_spec(opts: Map<Seq<char>, Seq<char>>) -> Result<TxView, Seq<char>> {
    let sender = value_or_spec(opts, "sender"@, DEFAULT_SENDER@);
    match required_int_spec(opts, "nonce"@, u64::MAX as int) {
        Err(e) => Err(e),
        Ok(nonce) => match required_int_spec(opts, "asset-a-amount"@, u128::MAX as int) {
            Err(e) => Err(e),
            Ok(a) => match required_int_spec(opts, "asset-b-amount"@, u128::MAX as int) {
                Err(e) => Err(e),
                Ok(b) => base_tx_spec(
                    opts,
                    "add-liquidity"@,
                    sender,
                    nonce as u64,
                    value_or_spec(opts, "pool"@, DEFAULT_POOL_CONTRACT@),
                    Method::AddLiquidity,
                    seq![ArgView::Amount(a as u128), ArgView::Amount(b as u128)],
                ),
            },
        },
    }
}

/// The `swap` transaction that the options describe.
pub open spec fn swap_spec(opts: Map<Seq<char>, Seq<char>>) -> Result<TxView, Seq<char>> {
    let sender = value_or_spec(opts, "sender"@, DEFAULT_SENDER@);
    match required_int_spec(opts, "nonce"@, u64::MAX as int) {
        Err(e) => Err(e),
        Ok(nonce) => match required_spec(opts, "input-asset"@) {
            Err(e) => Err(e),
            Ok(input) => match required_int_spec(opts, "amount-in"@, u128::MAX as int) {
                Err(e) => Err(e),
                Ok(amount_in) => match required_int_spec(opts, "min-output"@, u128::MAX as int) {
                    Err(e) => Err(e),
                    Ok(min_output) => base_tx_spec(
                        opts,
                        "swap"@,
                        sender,
                        nonce as u64,
                        value_or_spec(opts, "pool"@, DEFAULT_POOL_CONTRACT@),
                        Method::Swap,
                        seq![
                            ArgView::Asset(input),
                            ArgView::Amount(amount_in as u128),
                            ArgView::Amount(min_output as u128),
                        ],
                    ),
                },
            },
        },
    }
}

/// Whether the result of a builder matches the spec outcome.
pub open spec fn tx_outcome(result: Result<ClientTransaction, String>, spec: Result<TxView, Seq<char>>) -> bool {
    match spec {
        Ok(v) => result matches Ok(t) && t@ == v,
        Err(m) => result matches Err(e) && e@ == m,
    }
}

fn required_int_u64(options: &ParsedOptions, key: &str) -> (result: Result<u64, String>)
    ensures
        match required_int_spec(options@, key@, u64::MAX as int) {
            Ok(v) => result == Ok::<u64, String>(v as u64),
            Err(m) => result matches Err(e) && e@ == m,
        },
{
    let value = match options.required(key) {
        Ok(v) => v,
        Err(e) => {
            return Err(e);
        },
    };
    parse_u64(value.as_str(), key)
}

fn required_int_u128(options: &ParsedOptions, key: &str) -> (result: Result<u128, String>)
    ensures
        match required_int_spec(options@, key@, u128::MAX as int) {
            Ok(v) => result == Ok::<u128, String>(v as u128),
            Err(m) => result matches Err(e) && e@ == m,
        },
{
    let value = match options.required(key) {
        Ok(v) => v,
        Err(e) => {
            return Err(e);
        },
    };
    parse_u128(value.as_str(), key)
}

fn required_int_u32(options: &ParsedOptions, key: &str) -> (result: Result<u32, String>)
    ensures
        match required_int_spec(options@, key@, u32::MAX as int) {
            Ok(v) => result == Ok::<u32, String>(v as u32),
            Err(m) => result matches Err(e) && e@ == m,
        },
{
    let value = match options.required(key) {
        Ok(v) => v,
        Err(e) => {
            return Err(e);
        },
    };
    parse_u32(value.as_str(), key)
}

fn optional_int_u64(options: &ParsedOptions, key: &str) -> (result: Result<Option<u64>, String>)
    ensures
        match optional_int_spec(options@, key@, u64::MAX as int) {
            Ok(None) => result == Ok::<Option<u64>, String>(None),
            Ok(Some(v)) => result == Ok::<Option<u64>, String>(Some(v as u64)),
            Err(m) => result matches Err(e) && e@ == m,
        },
{
    match options.optional(key) {
        None => Ok(None),
        Some(value) => match parse_u64(value.as_str(), key) {
            Ok(v) => Ok(Some(v)),
            Err(e) => Err(e),
        },
    }
}

fn optional_int_u32(options: &ParsedOptions, key: &str) -> (result: Result<Option<u32>, String>)
    ensures
        match optional_int_spec(options@, key@, u32::MAX as int) {
            Ok(None) => result == Ok::<Option<u32>, String>(None),
            Ok(Some(v)) => result == Ok::<Option<u32>, String>(Some(v as u32)),
            Err(m) => result matches Err(e) && e@ == m,
        },
{
    match options.optional(key) {
        None => Ok(None),
        Some(value) => match parse_u32(value.as_str(), key) {
            Ok(v) => Ok(Some(v)),
            Err(e) => Err(e),
        },
    }
}

/// The transaction around a contract call, with chain id, hash (by default
/// `prefix-sender-nonce`), expiry and budget taken from the options.
pub fn base_tx(
    options: &ParsedOptions,
    prefix: &str,
    sender: &str,
    nonce: u64,
    target: String,
    method: Method,
    args: Vec<Argument>,
) -> (result: Result<ClientTransaction, String>)
    ensures
        tx_outcome(
            result,
            base_tx_spec(
                options@,
                prefix@,
                sender@,
                nonce,
                target@,
                method,
                args@.map_values(|a: Argument| a@),
            ),
        ),
{
    let chain_id = options.value_or("chain-id", DEFAULT_CHAIN_ID);
    let tx_hash = match options.optional("tx-hash") {
        Some(h) => h,
        None => {
            let mut h = concat_str(prefix, "-");
            h.append(sender);
            h.append("-");
            push_decimal(&mut h, nonce);
            h
        },
    };
    let valid_until_height = match optional_int_u64(options, "valid-until-height") {
        Ok(v) => v,
        Err(e) => {
            return Err(e);
        },
    };
    let budget = match optional_int_u64(options, "budget") {
        Ok(Some(b)) => b,
        Ok(None) => DEFAULT_BUDGET,
        Err(e) => {
            return Err(e);
        },
    };
    Ok(
        ClientTransaction {
            chain_id,
            tx_hash,
            sender: owned(sender),
            nonce,
            valid_until_height,
            target,
            method,
            args,
            signature_ok: true,
            budget,
        },
    )
}

/// The `deploy-token` transaction: the factory deploys token `--contract`
/// of asset `--asset` with `--initial-supply` held by `--initial-holder`
/// (by default the sender).
pub fn deploy_token_tx(options: &ParsedOptions) -> (result: Result<ClientTransaction, String>)
    ensures
        tx_outcome(result, deploy_token_spec(options@)),
{
    let contract = match options.required("contract") {
        Ok(c) => c,
        Err(e) => {
            return Err(e);
        },
    };
    let sender = options.value_or("sender", DEFAULT_SENDER);
    let nonce = match required_int_u64(options, "nonce") {
        Ok(n) => n,
        Err(e) => {
            return Err(e);
        },
    };
    let target = options.value_or("factory", DEFAULT_FACTORY_CONTRACT);
    let asset = match options.required("asset") {
        Ok(a) => a,
        Err(e) => {
            return Err(e);
        },
    };
    let holder = options.value_or("initial-holder", sender.as_str());
    let supply = match required_int_u128(options, "initial-supply") {
        Ok(s) => s,
        Err(e) => {
            return Err(e);
        },
    };
    let args = vec![
        Argument::Text(contract),
        Argument::Asset(asset),
        Argument::Principal(holder),
        Argument::Amount(supply),
    ];
    let ghost expected = args@.map_values(|a: Argument| a@);
    assert(expected =~= seq![
        ArgView::Text(args@[0]->Text_0@),
        ArgView::Asset(args@[1]->Asset_0@),
        ArgView::Principal(args@[2]->Principal_0@),
        ArgView::Amount(supply),
    ]);
    base_tx(options, "deploy-token", sender.as_str(), nonce, target, Method::DeployToken, args)
}

/// The `deploy-pool` transaction: the factory deploys pool `--contract` for
/// assets `--asset-a` and `--asset-b`.
pub fn deploy_pool_tx(options: &ParsedOptions) -> (result: Result<ClientTransaction, String>)
    ensures
        tx_outcome(result, deploy_pool_spec(options@)),
{
    let contract = match options.required("contract") {
        Ok(c) => c,
        Err(e) => {
            return Err(e);
        },
    };
    let sender = options.value_or("sender", DEFAULT_SENDER);
    let nonce = match required_int_u64(options, "nonce") {
        Ok(n) => n,
        Err(e) => {
            return Err(e);
        },
    };
    let target = options.value_or("factory", DEFAULT_FACTORY_CONTRACT);
    let asset_a = match options.required("asset-a") {
        Ok(a) => a,
        Err(e) => {
            return Err(e);
        },
    };
    let asset_b = match options.required("asset-b") {
        Ok(b) => b,
        Err(e) => {
            return Err(e);
        },
    };
    let args = vec![Argument::Text(contract), Argument::Asset(asset_a), Argument::Asset(asset_b)];
    assert(args@.map_values(|a: Argument| a@) =~= seq![
        ArgView::Text(args@[0]->Text_0@),
        ArgView::Asset(args@[1]->Asset_0@),
        ArgView::Asset(args@[2]->Asset_0@),
    ]);
    base_tx(options, "deploy-pool", sender.as_str(), nonce, target, Method::DeployAmmPool, args)
}

/// The `add-liquidity` transaction: `--asset-a-amount` and
/// `--asset-b-amount` into pool `--pool`.
pub fn add_liquidity_tx(options: &ParsedOptions) -> (result: Result<ClientTransaction, String>)
    ensures
        tx_outcome(result, add_liquidity_spec(options@)),
{
    let sender = options.value_or("sender", DEFAULT_SENDER);
    let nonce = match required_int_u64(options, "nonce") {
        Ok(n) => n,
        Err(e) => {
            return Err(e);
        },
    };
    let target = options.value_or("pool", DEFAULT_POOL_CONTRACT);
    let a = match required_int_u128(options, "asset-a-amount") {
        Ok(a) => a,
        Err(e) => {
            return Err(e);
        },
    };
    let b = match required_int_u128(options, "asset-b-amount") {
        Ok(b) => b,
        Err(e) => {
            return Err(e);
        },
    };
    let args = vec![Argument::Amount(a), Argument::Amount(b)];
    assert(args@.map_values(|x: Argument| x@) =~= seq![ArgView::Amount(a), ArgView::Amount(b)]);
    base_tx(options, "add-liquidity", sender.as_str(), nonce, target, Method::AddLiquidity, args)
}

/// The `swap` transaction: `--amount-in` of `--input-asset` into pool
/// `--pool`, for at least `--min-output`.
pub fn swap_tx(options: &ParsedOptions) -> (result: Result<ClientTransaction, String>)
    ensures
        tx_outcome(result, swap_spec(options@)),
{
    let sender = options.value_or("sender", DEFAULT_SENDER);
    let nonce = match required_int_u64(options, "nonce") {
        Ok(n) => n,
        Err(e) => {
            return Err(e);
        },
    };
    let target = options.value_or("pool", DEFAULT_POOL_CONTRACT);
    let input = match options.required("input-asset") {
        Ok(a) => a,
        Err(e) => {
            return Err(e);
        },
    };
    let amount_in = match required_int_u128(options, "amount-in") {
        Ok(a) => a,
        Err(e) => {
            return Err(e);
        },
    };
    let min_output = match required_int_u128(options, "min-output") {
        Ok(a) => a,
        Err(e) => {
            return Err(e);
        },
    };
    let args = vec![Argument::Asset(input), Argument::Amount(amount_in), Argument::Amount(min_output)];
    assert(args@.map_values(|x: Argument| x@) =~= seq![
        ArgView::Asset(args@[0]->Asset_0@),
        ArgView::Amount(amount_in),
        ArgView::Amount(min_output),
    ]);
    base_tx(options, "swap", sender.as_str(), nonce, target, Method::Swap, args)
}


/// An RPC request that a client command sends.
#[derive(Debug)]
pub enum ClientRequest {
    ProduceBlock { height: u64, timestamp: u64 },
    ProduceDaBlock { height: u64, timestamp: u64, share_size_bytes: u32 },
    GetReceipt { tx_hash: String },
    GetDaManifest { manifest_hash: String },
    GetDaShare { manifest_hash: String, index: u32 },
    GetDaCertificate { certificate_hash: String },
    GetDaChallengeRecord { challenge_id: String },
    GetDaPayload { manifest_hash: String },
    GetDaNamespace { manifest_hash: String, namespace: String },
    GetDaSampleProofs {
        manifest_hash: String,
        client_randomness: String,
        sample_count: u32,
        namespaces: Vec<String>,
    },
    GetDaStatus { manifest_hash: String },
    GetDaRepairStatus { manifest_hash: String },
    GetDaCodingFraudProof { manifest_hash: String },
    GetDaStorageStats,
    GetDaRetentionAudit,
    GetDaRetentionPrunePlan,
    GetDaManifestIndexByHeight { height: u64 },
    GetDaManifestIndexByBlockHash { block_hash: String },
    GetDaManifestIndexByNamespace { namespace: String },
    GetDaManifestIndexByRetentionClass { class: DaRetentionClass },
    GetDaCertificateIndexByManifest { manifest_hash: String },
    GetDaCertificateIndexByHeight { height: u64 },
    GetDaCertificateIndexByBlockHash { block_hash: String },
    GetStateRoot,
}

/// The content of a request.
pub enum RequestView {
    ProduceBlock { height: u64, timestamp: u64 },
    ProduceDaBlock { height: u64, timestamp: u64, share_size_bytes: u32 },
    GetReceipt { tx_hash: Seq<char> },
    GetDaManifest { manifest_hash: Seq<char> },
    GetDaShare { manifest_hash: Seq<char>, index: u32 },
    GetDaCertificate { certificate_hash: Seq<char> },
    GetDaChallengeRecord { challenge_id: Seq<char> },
    GetDaPayload { manifest_hash: Seq<char> },
    GetDaNamespace { manifest_hash: Seq<char>, namespace: Seq<char> },
    GetDaSampleProofs {
        manifest_hash: Seq<char>,
        client_randomness: Seq<char>,
        sample_count: u32,
        namespaces: Seq<Seq<char>>,
    },
    GetDaStatus { manifest_hash: Seq<char> },
    GetDaRepairStatus { manifest_hash: Seq<char> },
    GetDaCodingFraudProof { manifest_hash: Seq<char> },
    GetDaStorageStats,
    GetDaRetentionAudit,
    GetDaRetentionPrunePlan,
    GetDaManifestIndexByHeight { height: u64 },
    GetDaManifestIndexByBlockHash { block_hash: Seq<char> },
    GetDaManifestIndexByNamespace { namespace: Seq<char> },
    GetDaManifestIndexByRetentionClass { class: DaRetentionClass },
    GetDaCertificateIndexByManifest { manifest_hash: Seq<char> },
    GetDaCertificateIndexByHeight { height: u64 },
    GetDaCertificateIndexByBlockHash { block_hash: Seq<char> },
    GetStateRoot,
}

impl View for ClientRequest {
    type V = RequestView;

    open spec fn view(&self) -> RequestView {
        match self {
            ClientRequest::ProduceBlock { height, timestamp } => RequestView::ProduceBlock {
                height: *height,
                timestamp: *timestamp,
            },
            ClientRequest::ProduceDaBlock { height, timestamp, share_size_bytes } =>
                RequestView::ProduceDaBlock {
                height: *height,
                timestamp: *timestamp,
                share_size_bytes: *share_size_bytes,
            },
            ClientRequest::GetReceipt { tx_hash } => RequestView::GetReceipt { tx_hash: tx_hash@ },
            ClientRequest::GetDaManifest { manifest_hash } => RequestView::GetDaManifest {
                manifest_hash: manifest_hash@,
            },
            ClientRequest::GetDaShare { manifest_hash, index } => RequestView::GetDaShare {
                manifest_hash: manifest_hash@,
                index: *index,
            },
            ClientRequest::GetDaCertificate { certificate_hash } => RequestView::GetDaCertificate {
                certificate_hash: certificate_hash@,
            },
            ClientRequest::GetDaChallengeRecord { challenge_id } =>
                RequestView::GetDaChallengeRecord { challenge_id: challenge_id@ },
            ClientRequest::GetDaPayload { manifest_hash } => RequestView::GetDaPayload {
                manifest_hash: manifest_hash@,
            },
            ClientRequest::GetDaNamespace { manifest_hash, namespace } =>
                RequestView::GetDaNamespace {
                manifest_hash: manifest_hash@,
                namespace: namespace@,
            },
            ClientRequest::GetDaSampleProofs {
                manifest_hash,
                client_randomness,
                sample_count,
                namespaces,
            } => RequestView::GetDaSampleProofs {
                manifest_hash: manifest_hash@,
                client_randomness: client_randomness@,
                sample_count: *sample_count,
                namespaces: views(namespaces@),
            },
            ClientRequest::GetDaStatus { manifest_hash } => RequestView::GetDaStatus {
                manifest_hash: manifest_hash@,
            },
            ClientRequest::GetDaRepairStatus { manifest_hash } => RequestView::GetDaRepairStatus {
                manifest_hash: manifest_hash@,
            },
            ClientRequest::GetDaCodingFraudProof { manifest_hash } =>
                RequestView::GetDaCodingFraudProof { manifest_hash: manifest_hash@ },
            ClientRequest::GetDaStorageStats => RequestView::GetDaStorageStats,
            ClientRequest::GetDaRetentionAudit => RequestView::GetDaRetentionAudit,
            ClientRequest::GetDaRetentionPrunePlan => RequestView::GetDaRetentionPrunePlan,
            ClientRequest::GetDaManifestIndexByHeight { height } =>
                RequestView::GetDaManifestIndexByHeight { height: *height },
            ClientRequest::GetDaManifestIndexByBlockHash { block_hash } =>
                RequestView::GetDaManifestIndexByBlockHash { block_hash: block_hash@ },
            ClientRequest::GetDaManifestIndexByNamespace { namespace } =>
                RequestView::GetDaManifestIndexByNamespace { namespace: namespace@ },
            ClientRequest::GetDaManifestIndexByRetentionClass { class } =>
                RequestView::GetDaManifestIndexByRetentionClass { class: *class },
            ClientRequest::GetDaCertificateIndexByManifest { manifest_hash } =>
                RequestView::GetDaCertificateIndexByManifest { manifest_hash: manifest_hash@ },
            ClientRequest::GetDaCertificateIndexByHeight { height } =>
                RequestView::GetDaCertificateIndexByHeight { height: *height },
            ClientRequest::GetDaCertificateIndexByBlockHash { block_hash } =>
                RequestView::GetDaCertificateIndexByBlockHash { block_hash: block_hash@ },
            ClientRequest::GetStateRoot => RequestView::GetStateRoot,
        }
    }
}

/// What a client command does: submit a transaction, or send a request and
/// print its result.
#[derive(Debug)]
pub enum ClientAction {
    Submit(ClientTransaction),
    Query(ClientRequest),
}

/// The content of an action.
pub enum ActionView {
    Submit(TxView),
    Query(RequestView),
}

impl View for ClientAction {
    type V = ActionView;

    open spec fn view(&self) -> ActionView {
        match self {
            ClientAction::Submit(t) => ActionView::Submit(t@),
            ClientAction::Query(r) => ActionView::Query(r@),
        }
    }
}

/// The client's usage text.
pub const CLIENT_USAGE_TEXT: &'static str = "Usage:\n  detta-client deploy-token --contract <id> --asset <symbol> --initial-holder <principal> --initial-supply <amount> --nonce <n> [--produce-height <h>]\n  detta-client deploy-pool --contract <id> --asset-a <symbol> --asset-b <symbol> --nonce <n> [--produce-height <h>]\n  detta-client add-liquidity --pool <id> --asset-a-amount <amount> --asset-b-amount <amount> --nonce <n> [--produce-height <h>]\n  detta-client swap --pool <id> --input-asset <symbol> --amount-in <amount> --min-output <amount> --nonce <n> [--produce-height <h>]\n  detta-client produce-block --height <h> [--timestamp <t>]\n  detta-client produce-da-block --height <h> [--timestamp <t>] [--share-size <bytes>]\n  detta-client receipt --tx-hash <hash>\n  detta-client da-manifest --manifest-hash <hash>\n  detta-client da-share --manifest-hash <hash> --index <i>\n  detta-client da-certificate --certificate-hash <hash>\n  detta-client da-challenge --challenge-id <hash>\n  detta-client da-payload --manifest-hash <hash>\n  detta-client da-namespace --manifest-hash <hash> --namespace <name>\n  detta-client da-sample-proofs --manifest-hash <hash> --client-randomness <bytes> --sample-count <n> [--namespaces <csv>]\n  detta-client da-status --manifest-hash <hash>\n  detta-client da-repair-status --manifest-hash <hash>\n  detta-client da-coding-fraud-proof --manifest-hash <hash>\n  detta-client da-stats\n  detta-client da-retention-audit\n  detta-client da-retention-prune-plan\n  detta-client da-manifest-index-by-height --height <h>\n  detta-client da-manifest-index-by-block --block-hash <hash>\n  detta-client da-manifest-index-by-namespace --namespace <name>\n  detta-client da-manifest-index-by-retention --class <hot|warm|cold|checkpoint>\n  detta-client da-certificate-index-by-manifest --manifest-hash <hash>\n  detta-client da-certificate-index-by-height --height <h>\n  detta-client da-certificate-index-by-block --block-hash <hash>\n  detta-client state-root\n\nCommon options:\n  --rpc <host:port>               TCP RPC address, default 127.0.0.1:8080\n  --chain-id <id>                 Chain id, default detta-local\n  --sender <principal>            Transaction sender, default Alice\n  --tx-hash <hash>                Transaction hash/id\n  --factory <id>                  Factory contract, default FactoryA\n  --budget <units>                Transaction budget, default 1000000\n  --valid-until-height <height>   Optional expiry height\n  --produce-timestamp <time>      Timestamp for --produce-height\n";

/// The client's usage text.
pub fn usage() -> (text: String)
    ensures
        text@ == CLIENT_USAGE_TEXT@,
{
    owned(CLIENT_USAGE_TEXT)
}

/// The timestamp used for a block of height `height` when none is given:
/// a thousand per height.
pub open spec fn default_timestamp(height: u64) -> u64 {
    (height * 1000) as u64
}

/// Whether the default timestamp for the height in option `height_key`
/// fits in a `u64` wherever it is computed: once that height and the
/// optional timestamp in `timestamp_key` have both parsed, whether or not a
/// timestamp was given.
pub open spec fn default_timestamp_fits(
    opts: Map<Seq<char>, Seq<char>>,
    height_key: Seq<char>,
    timestamp_key: Seq<char>,
) -> bool {
    match optional_int_spec(opts, height_key, u64::MAX as int) {
        Ok(Some(h)) => optional_int_spec(opts, timestamp_key, u64::MAX as int) is Ok ==> h * 1000
            <= u64::MAX,
        _ => true,
    }
}

/// Whether computing the default timestamp for the options would overflow;
/// a caller tests this before `client_action` or `finalize_block_request`.
pub fn default_timestamp_overflows(options: &ParsedOptions, height_key: &str, timestamp_key: &str) -> (overflows: bool)
    ensures
        overflows == !default_timestamp_fits(options@, height_key@, timestamp_key@),
{
    proof {
        if options@.dom().contains(height_key@) {
            lemma_parse_unsigned_range(options@[height_key@], u64::MAX as int);
        }
    }
    match optional_int_u64(options, height_key) {
        Ok(Some(h)) => match optional_int_u64(options, timestamp_key) {
            Ok(_) => h > u64::MAX / 1000,
            Err(_) => false,
        },
        _ => false,
    }
}

/// The request whose only field is the required option `key`.
pub open spec fn text_query(
    opts: Map<Seq<char>, Seq<char>>,
    key: Seq<char>,
    make: spec_fn(Seq<char>) -> RequestView,
) -> Result<ActionView, Seq<char>> {
    match required_spec(opts, key) {
        Err(e) => Err(e),
        Ok(v) => Ok(ActionView::Query(make(v))),
    }
}

/// The request whose only field is the `u64` value of the required option
/// `key`.
pub open spec fn height_query(
    opts: Map<Seq<char>, Seq<char>>,
    key: Seq<char>,
    make: spec_fn(u64) -> RequestView,
) -> Result<ActionView, Seq<char>> {
    match required_int_spec(opts, key, u64::MAX as int) {
        Err(e) => Err(e),
        Ok(v) => Ok(ActionView::Query(make(v as u64))),
    }
}

/// What the transaction commands do.
pub open spec fn submit_spec(spec: Result<TxView, Seq<char>>) -> Result<ActionView, Seq<char>> {
    match spec {
        Ok(t) => Ok(ActionView::Submit(t)),
        Err(e) => Err(e),
    }
}

/// The block-producing requests: `--height`, then `--timestamp` (by
/// default a thousand per height), then for DA blocks `--share-size`.
pub open spec fn produce_spec(opts: Map<Seq<char>, Seq<char>>, with_da: bool) -> Result<
    ActionView,
    Seq<char>,
> {
    match required_int_spec(opts, "height"@, u64::MAX as int) {
        Err(e) => Err(e),
        Ok(h) => match optional_int_spec(opts, "timestamp"@, u64::MAX as int) {
            Err(e) => Err(e),
            Ok(t) => {
                let timestamp = match t {
                    Some(v) => v as u64,
                    None => default_timestamp(h as u64),
                };
                if !with_da {
                    Ok(ActionView::Query(RequestView::ProduceBlock { height: h as u64, timestamp }))
                } else {
                    match optional_int_spec(opts, "share-size"@, u32::MAX as int) {
                        Err(e) => Err(e),
                        Ok(s) => Ok(
                            ActionView::Query(
                                RequestView::ProduceDaBlock {
                                    height: h as u64,
                                    timestamp,
                                    share_size_bytes: match s {
                                        Some(v) => v as u32,
                                        None => DEFAULT_DA_SHARE_SIZE_BYTES,
                                    },
                                },
                            ),
                        ),
                    }
                }
            },
        },
    }
}

/// The DA-share and DA-namespace and sample-proof requests, which have
/// more than one field.
pub open spec fn multi_field_spec(command: Seq<char>, opts: Map<Seq<char>, Seq<char>>) -> Result<
    ActionView,
    Seq<char>,
> {
    match required_spec(opts, "manifest-hash"@) {
        Err(e) => Err(e),
        Ok(m) => if command == "da-share"@ {
            match required_int_spec(opts, "index"@, u32::MAX as int) {
                Err(e) => Err(e),
                Ok(i) => Ok(
                    ActionView::Query(RequestView::GetDaShare { manifest_hash: m, index: i as u32 }),
                ),
            }
        } else if command == "da-namespace"@ {
            match required_spec(opts, "namespace"@) {
                Err(e) => Err(e),
                Ok(n) => Ok(
                    ActionView::Query(RequestView::GetDaNamespace { manifest_hash: m, namespace: n }),
                ),
            }
        } else {
            match required_spec(opts, "client-randomness"@) {
                Err(e) => Err(e),
                Ok(r) => match required_int_spec(opts, "sample-count"@, u32::MAX as int) {
                    Err(e) => Err(e),
                    Ok(c) => Ok(
                        ActionView::Query(
                            RequestView::GetDaSampleProofs {
                                manifest_hash: m,
                                client_randomness: r,
                                sample_count: c as u32,
                                namespaces: if opts.dom().contains("namespaces"@) {
                                    csv_items_spec(opts["namespaces"@])
                                } else {
                                    Seq::empty()
                                },
                            },
                        ),
                    ),
                },
            }
        },
    }
}

/// What command `command` with options `opts` does, or the error it
/// reports.
pub open spec fn command_spec(command: Seq<char>, opts: Map<Seq<char>, Seq<char>>) -> Result<
    ActionView,
    Seq<char>,
> {
    if command == "deploy-token"@ {
        submit_spec(deploy_token_spec(opts))
    } else if command == "deploy-pool"@ {
        submit_spec(deploy_pool_spec(opts))
    } else if command == "add-liquidity"@ {
        submit_spec(add_liquidity_spec(opts))
    } else if command == "swap"@ {
        submit_spec(swap_spec(opts))
    } else if command == "produce-block"@ {
        produce_spec(opts, false)
    } else if command == "produce-da-block"@ {
        produce_spec(opts, true)
    } else if command == "receipt"@ {
        text_query(opts, "tx-hash"@, |v: Seq<char>| RequestView::GetReceipt { tx_hash: v })
    } else if command == "da-manifest"@ {
        text_query(opts, "manifest-hash"@, |v: Seq<char>| RequestView::GetDaManifest { manifest_hash: v })
    } else if command == "da-share"@ || command == "da-namespace"@ || command == "da-sample-proofs"@ {
        multi_field_spec(command, opts)
    } else if command == "da-certificate"@ {
        text_query(
            opts,
            "certificate-hash"@,
            |v: Seq<char>| RequestView::GetDaCertificate { certificate_hash: v },
        )
    } else if command == "da-challenge"@ {
        text_query(
            opts,
            "challenge-id"@,
            |v: Seq<char>| RequestView::GetDaChallengeRecord { challenge_id: v },
        )
    } else if command == "da-payload"@ {
        text_query(opts, "manifest-hash"@, |v: Seq<char>| RequestView::GetDaPayload { manifest_hash: v })
    } else if command == "da-status"@ {
        text_query(opts, "manifest-hash"@, |v: Seq<char>| RequestView::GetDaStatus { manifest_hash: v })
    } else if command == "da-repair-status"@ {
        text_query(
            opts,
            "manifest-hash"@,
            |v: Seq<char>| RequestView::GetDaRepairStatus { manifest_hash: v },
        )
    } else if command == "da-coding-fraud-proof"@ {
        text_query(
            opts,
            "manifest-hash"@,
            |v: Seq<char>| RequestView::GetDaCodingFraudProof { manifest_hash: v },
        )
    } else if command == "da-stats"@ {
        Ok(ActionView::Query(RequestView::GetDaStorageStats))
    } else if command == "da-retention-audit"@ {
        Ok(ActionView::Query(RequestView::GetDaRetentionAudit))
    } else if command == "da-retention-prune-plan"@ {
        Ok(ActionView::Query(RequestView::GetDaRetentionPrunePlan))
    } else if command == "da-manifest-index-by-height"@ {
        height_query(opts, "height"@, |h: u64| RequestView::GetDaManifestIndexByHeight { height: h })
    } else if command == "da-manifest-index-by-block"@ {
        text_query(
            opts,
            "block-hash"@,
            |v: Seq<char>| RequestView::GetDaManifestIndexByBlockHash { block_hash: v },
        )
    } else if command == "da-manifest-index-by-namespace"@ {
        text_query(
            opts,
            "namespace"@,
            |v: Seq<char>| RequestView::GetDaManifestIndexByNamespace { namespace: v },
        )
    } else if command == "da-manifest-index-by-retention"@ {
        match required_spec(opts, "class"@) {
            Err(e) => Err(e),
            Ok(v) => match retention_class_spec(v) {
                Some(class) => Ok(
                    ActionView::Query(RequestView::GetDaManifestIndexByRetentionClass { class }),
                ),
                None => Err("invalid --class: expected hot, warm, cold, or checkpoint, got "@ + v),
            },
        }
    } else if command == "da-certificate-index-by-manifest"@ {
        text_query(
            opts,
            "manifest-hash"@,
            |v: Seq<char>| RequestView::GetDaCertificateIndexByManifest { manifest_hash: v },
        )
    } else if command == "da-certificate-index-by-height"@ {
        height_query(opts, "height"@, |h: u64| RequestView::GetDaCertificateIndexByHeight { height: h })
    } else if command == "da-certificate-index-by-block"@ {
        text_query(
            opts,
            "block-hash"@,
            |v: Seq<char>| RequestView::GetDaCertificateIndexByBlockHash { block_hash: v },
        )
    } else if command == "state-root"@ {
        Ok(ActionView::Query(RequestView::GetStateRoot))
    } else {
        Err("unknown command: "@ + command + "\n\n"@ + CLIENT_USAGE_TEXT@)
    }
}

/// Whether `result` is what `spec` says a command does.
pub open spec fn action_outcome(result: Result<ClientAction, String>, spec: Result<ActionView, Seq<char>>) -> bool {
    match spec {
        Ok(v) => result matches Ok(a) && a@ == v,
        Err(m) => result matches Err(e) && e@ == m,
    }
}

fn submit(result: Result<ClientTransaction, String>) -> (action: Result<ClientAction, String>)
    ensures
        match result {
            Ok(t) => action matches Ok(ClientAction::Submit(u)) && u@ == t@,
            Err(e) => action matches Err(f) && f@ == e@,
        },
{
    match result {
        Ok(t) => Ok(ClientAction::Submit(t)),
        Err(e) => Err(e),
    }
}

fn produce_request(options: &ParsedOptions, with_da: bool) -> (result: Result<ClientAction, String>)
    requires
        default_timestamp_fits(options@, "height"@, "timestamp"@),
    ensures
        action_outcome(result, produce_spec(options@, with_da)),
{
    proof {
        if options@.dom().contains("height"@) {
            lemma_parse_unsigned_range(options@["height"@], u64::MAX as int);
        }
    }
    let height = match required_int_u64(options, "height") {
        Ok(h) => h,
        Err(e) => {
            return Err(e);
        },
    };
    let timestamp = match optional_int_u64(options, "timestamp") {
        Ok(Some(t)) => t,
        Ok(None) => height * 1000,
        Err(e) => {
            return Err(e);
        },
    };
    if !with_da {
        return Ok(ClientAction::Query(ClientRequest::ProduceBlock { height, timestamp }));
    }
    let share_size_bytes = match optional_int_u32(options, "share-size") {
        Ok(Some(s)) => s,
        Ok(None) => DEFAULT_DA_SHARE_SIZE_BYTES,
        Err(e) => {
            return Err(e);
        },
    };
    Ok(ClientAction::Query(ClientRequest::ProduceDaBlock { height, timestamp, share_size_bytes }))
}

fn multi_field_request(command: &str, options: &ParsedOptions) -> (result: Result<ClientAction, String>)
    requires
        command@ == "da-share"@ || command@ == "da-namespace"@ || command@ == "da-sample-proofs"@,
    ensures
        action_outcome(result, multi_field_spec(command@, options@)),
{
    let manifest_hash = match options.required("manifest-hash") {
        Ok(m) => m,
        Err(e) => {
            return Err(e);
        },
    };
    if str_eq(command, "da-share") {
        let index = match required_int_u32(options, "index") {
            Ok(i) => i,
            Err(e) => {
                return Err(e);
            },
        };
        Ok(ClientAction::Query(ClientRequest::GetDaShare { manifest_hash, index }))
    } else if str_eq(command, "da-namespace") {
        let namespace = match options.required("namespace") {
            Ok(n) => n,
            Err(e) => {
                return Err(e);
            },
        };
        Ok(ClientAction::Query(ClientRequest::GetDaNamespace { manifest_hash, namespace }))
    } else {
        let client_randomness = match options.required("client-randomness") {
            Ok(r) => r,
            Err(e) => {
                return Err(e);
            },
        };
        let sample_count = match required_int_u32(options, "sample-count") {
            Ok(c) => c,
            Err(e) => {
                return Err(e);
            },
        };
        let namespaces = parse_csv_option(options.optional("namespaces"));
        proof {
            if !options@.dom().contains("namespaces"@) {
                assert(views(namespaces@) =~= Seq::<Seq<char>>::empty());
            }
        }
        Ok(
            ClientAction::Query(
                ClientRequest::GetDaSampleProofs {
                    manifest_hash,
                    client_randomness,
                    sample_count,
                    namespaces,
                },
            ),
        )
    }
}

/// What client command `command` with `options` does: the transaction it
/// submits or the request it sends, or the error it reports.
pub fn client_action(command: &str, options: &ParsedOptions) -> (result: Result<ClientAction, String>)
    requires
        command@ == "produce-block"@ || command@ == "produce-da-block"@ ==> default_timestamp_fits(
            options@,
            "height"@,
            "timestamp"@,
        ),
    ensures
        action_outcome(result, command_spec(command@, options@)),
{
    proof {
        reveal_strlit("deploy-token");
    }
    if str_eq(command, "deploy-token") {
        submit(deploy_token_tx(options))
    } else if str_eq(command, "deploy-pool") {
        submit(deploy_pool_tx(options))
    } else if str_eq(command, "add-liquidity") {
        submit(add_liquidity_tx(options))
    } else if str_eq(command, "swap") {
        submit(swap_tx(options))
    } else if str_eq(command, "produce-block") {
        produce_request(options, false)
    } else if str_eq(command, "produce-da-block") {
        produce_request(options, true)
    } else if str_eq(command, "receipt") {
        match options.required("tx-hash") {
            Ok(tx_hash) => Ok(ClientAction::Query(ClientRequest::GetReceipt { tx_hash })),
            Err(e) => Err(e),
        }
    } else if str_eq(command, "da-manifest") {
        match options.required("manifest-hash") {
            Ok(manifest_hash) => Ok(ClientAction::Query(ClientRequest::GetDaManifest { manifest_hash })),
            Err(e) => Err(e),
        }
    } else if str_eq(command, "da-share") || str_eq(command, "da-namespace") || str_eq(
        command,
        "da-sample-proofs",
    ) {
        multi_field_request(command, options)
    } else if str_eq(command, "da-certificate") {
        match options.required("certificate-hash") {
            Ok(certificate_hash) => Ok(
                ClientAction::Query(ClientRequest::GetDaCertificate { certificate_hash }),
            ),
            Err(e) => Err(e),
        }
    } else if str_eq(command, "da-challenge") {
        match options.required("challenge-id") {
            Ok(challenge_id) => Ok(
                ClientAction::Query(ClientRequest::GetDaChallengeRecord { challenge_id }),
            ),
            Err(e) => Err(e),
        }
    } else if str_eq(command, "da-payload") {
        match options.required("manifest-hash") {
            Ok(manifest_hash) => Ok(ClientAction::Query(ClientRequest::GetDaPayload { manifest_hash })),
            Err(e) => Err(e),
        }
    } else if str_eq(command, "da-status") {
        match options.required("manifest-hash") {
            Ok(manifest_hash) => Ok(ClientAction::Query(ClientRequest::GetDaStatus { manifest_hash })),
            Err(e) => Err(e),
        }
    } else if str_eq(command, "da-repair-status") {
        match options.required("manifest-hash") {
            Ok(manifest_hash) => Ok(
                ClientAction::Query(ClientRequest::GetDaRepairStatus { manifest_hash }),
            ),
            Err(e) => Err(e),
        }
    } else if str_eq(command, "da-coding-fraud-proof") {
        match options.required("manifest-hash") {
            Ok(manifest_hash) => Ok(
                ClientAction::Query(ClientRequest::GetDaCodingFraudProof { manifest_hash }),
            ),
            Err(e) => Err(e),
        }
    } else if str_eq(command, "da-stats") {
        Ok(ClientAction::Query(ClientRequest::GetDaStorageStats))
    } else if str_eq(command, "da-retention-audit") {
        Ok(ClientAction::Query(ClientRequest::GetDaRetentionAudit))
    } else if str_eq(command, "da-retention-prune-plan") {
        Ok(ClientAction::Query(ClientRequest::GetDaRetentionPrunePlan))
    } else if str_eq(command, "da-manifest-index-by-height") {
        match required_int_u64(options, "height") {
            Ok(height) => Ok(ClientAction::Query(ClientRequest::GetDaManifestIndexByHeight { height })),
            Err(e) => Err(e),
        }
    } else if str_eq(command, "da-manifest-index-by-block") {
        match options.required("block-hash") {
            Ok(block_hash) => Ok(
                ClientAction::Query(ClientRequest::GetDaManifestIndexByBlockHash { block_hash }),
            ),
            Err(e) => Err(e),
        }
    } else if str_eq(command, "da-manifest-index-by-namespace") {
        match options.required("namespace") {
            Ok(namespace) => Ok(
                ClientAction::Query(ClientRequest::GetDaManifestIndexByNamespace { namespace }),
            ),
            Err(e) => Err(e),
        }
    } else if str_eq(command, "da-manifest-index-by-retention") {
        match options.required("class") {
            Ok(value) => match parse_da_retention_class(value.as_str()) {
                Ok(class) => Ok(
                    ClientAction::Query(ClientRequest::GetDaManifestIndexByRetentionClass { class }),
                ),
                Err(e) => Err(e),
            },
            Err(e) => Err(e),
        }
    } else if str_eq(command, "da-certificate-index-by-manifest") {
        match options.required("manifest-hash") {
            Ok(manifest_hash) => Ok(
                ClientAction::Query(ClientRequest::GetDaCertificateIndexByManifest { manifest_hash }),
            ),
            Err(e) => Err(e),
        }
    } else if str_eq(command, "da-certificate-index-by-height") {
        match required_int_u64(options, "height") {
            Ok(height) => Ok(
                ClientAction::Query(ClientRequest::GetDaCertificateIndexByHeight { height }),
            ),
            Err(e) => Err(e),
        }
    } else if str_eq(command, "da-certificate-index-by-block") {
        match options.required("block-hash") {
            Ok(block_hash) => Ok(
                ClientAction::Query(ClientRequest::GetDaCertificateIndexByBlockHash { block_hash }),
            ),
            Err(e) => Err(e),
        }
    } else if str_eq(command, "state-root") {
        Ok(ClientAction::Query(ClientRequest::GetStateRoot))
    } else {
        let mut message = concat_str("unknown command: ", command);
        message.append("\n\n");
        message.append(CLIENT_USAGE_TEXT);
        Err(message)
    }
}

/// How a client run starts: print the usage, or connect and carry out a
/// command.
pub enum ClientInvocation {
    Help,
    Execute { command: String, options: ParsedOptions, rpc_addr: String },
}

/// Whether `command` asks for help.
pub open spec fn is_help(command: Seq<char>) -> bool {
    command == "-h"@ || command == "--help"@ || command == "help"@
}

/// How the client starts for command line `args` (the program name
/// first): the usage as an error without a command, help for `-h`,
/// `--help` and `help`, and otherwise the command with its options and the
/// RPC address to connect to (`--rpc`, by default `127.0.0.1:8080`).
pub fn plan_client_run(args: &[String]) -> (result: Result<ClientInvocation, String>)
    ensures
        args@.len() < 2 ==> (result matches Err(e) && e@ == CLIENT_USAGE_TEXT@),
        args@.len() >= 2 && is_help(args@[1]@) ==> (result matches Ok(ClientInvocation::Help)),
        args@.len() >= 2 && !is_help(args@[1]@) ==> match client_options_spec(
            string_views(args@.skip(2)),
        ) {
            Ok(log) => result matches Ok(ClientInvocation::Execute { command, options, rpc_addr })
                && command@ == args@[1]@ && options@ == crate::options::entries_map(log)
                && rpc_addr@ == value_or_spec(options@, "rpc"@, DEFAULT_RPC_ADDR@),
            Err(m) => result matches Err(e) && e@ == m,
        },
{
    if args.len() < 2 {
        return Err(usage());
    }
    let command = owned(args[1].as_str());
    if str_eq(command.as_str(), "-h") || str_eq(command.as_str(), "--help") || str_eq(
        command.as_str(),
        "help",
    ) {
        return Ok(ClientInvocation::Help);
    }
    let rest = vstd::slice::slice_subrange(args, 2, args.len());
    assert(rest@ =~= args@.skip(2));
    let options = match ParsedOptions::parse(rest) {
        Ok(options) => options,
        Err(e) => {
            return Err(e);
        },
    };
    let rpc_addr = options.value_or("rpc", DEFAULT_RPC_ADDR);
    Ok(ClientInvocation::Execute { command, options, rpc_addr })
}

/// The block to produce after submitting a transaction: at
/// `--produce-height`, with `--produce-timestamp` (by default a thousand
/// per height); none without `--produce-height`.
pub fn finalize_block_request(options: &ParsedOptions) -> (result: Result<Option<(u64, u64)>, String>)
    requires
        default_timestamp_fits(options@, "produce-height"@, "produce-timestamp"@),
    ensures
        match optional_int_spec(options@, "produce-height"@, u64::MAX as int) {
            Err(m) => result matches Err(e) && e@ == m,
            Ok(None) => result == Ok::<Option<(u64, u64)>, String>(None),
            Ok(Some(h)) => match optional_int_spec(options@, "produce-timestamp"@, u64::MAX as int) {
                Err(m) => result matches Err(e) && e@ == m,
                Ok(Some(t)) => result == Ok::<Option<(u64, u64)>, String>(Some((h as u64, t as u64))),
                Ok(None) => result == Ok::<Option<(u64, u64)>, String>(
                    Some((h as u64, default_timestamp(h as u64))),
                ),
            },
        },
{
    proof {
        if options@.dom().contains("produce-height"@) {
            lemma_parse_unsigned_range(options@["produce-height"@], u64::MAX as int);
        }
    }
    let height = match optional_int_u64(options, "produce-height") {
        Ok(Some(h)) => h,
        Ok(None) => {
            return Ok(None);
        },
        Err(e) => {
            return Err(e);
        },
    };
    match optional_int_u64(options, "produce-timestamp") {
        Ok(Some(t)) => Ok(Some((height, t))),
        Ok(None) => Ok(Some((height, height * 1000))),
        Err(e) => Err(e),
    }
}

} // verus!
