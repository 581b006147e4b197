//! The command-line option grammar of the DeTTa node binary, its integer
//! options, and the BFT settings it reads from its environment.
use crate::numeric::{
    parse_u128_value, parse_u64_value, parse_unsigned_spec, parse_usize_value,
};
use crate::options::{entries_map, skip_two, string_views, Entry, OptionTable};
use crate::text::{concat_str, csv_items, csv_items_spec, has_dash_prefix, starts_with_dashes, str_eq, views};
use crate::digest::{sha256, sha256_digest};
use crate::sorted::IdSet;
use vstd::prelude::*;
use vstd::utf8::encode_utf8;

verus! {

/// The outcome of reading the node's options from `args[index..]`, with
/// `values` and `flags` read so far.
pub open spec fn node_options_from(
    args: Seq<Seq<char>>,
    index: int,
    values: Seq<Entry>,
    flags: Seq<Seq<char>>,
) -> Result<(Seq<Entry>, Seq<Seq<char>>), Seq<char>>
    decreases args.len() - index,
{
    if index < 0 || index >= args.len() {
        Ok((values, flags))
    } else {
        let option = args[index];
        if !has_dash_prefix(option) {
            Err("expected option starting with --, got "@ + option)
        } else {
            let name = option.skip(2);
            if name.len() == 0 {
                Err("empty option name"@)
            } else if index + 1 < args.len() && !has_dash_prefix(args[index + 1]) {
                node_options_from(args, index + 2, values.push((name, args[index + 1])), flags)
            } else {
                node_options_from(args, index + 1, values, flags.push(name))
            }
        }
    }
}

/// The values and flags that the node reads from `args`, or the error
/// message.
pub open spec fn node_options_spec(args: Seq<Seq<char>>) -> Result<
    (Seq<Entry>, Seq<Seq<char>>),
    Seq<char>,
> {
    node_options_from(args, 0, Seq::empty(), Seq::empty())
}

/// The node's parsed options: named values and bare flags.
pub struct ParsedOptions {
    values: OptionTable,
    flags: Vec<String>,
}

impl View for ParsedOptions {
    type V = Map<Seq<char>, Seq<char>>;

    closed spec fn view(&self) -> Map<Seq<char>, Seq<char>> {
        self.values@
    }
}

impl ParsedOptions {
    /// The names given without a value.
    pub closed spec fn flag_set(&self) -> Set<Seq<char>> {
        string_views(self.flags@).to_set()
    }

    /// Reads `--name value` options; an option followed by another option,
    /// or by nothing, is a flag.
    pub fn parse(args: &[String]) -> (result: Result<Self, String>)
        ensures
            match node_options_spec(string_views(args@)) {
                Ok(parsed) => result matches Ok(options) && options@ == entries_map(parsed.0)
                    && options.flag_set() == parsed.1.to_set(),
                Err(message) => result matches Err(e) && e@ == message,
            },
    {
        let ghost a = string_views(args@);
        let mut table = OptionTable::new();
        let mut flags: Vec<String> = Vec::new();
        let mut index: usize = 0;
        assert(string_views(flags@) =~= Seq::<Seq<char>>::empty());
        while index < args.len()
            invariant
                a == string_views(args@),
                index <= args@.len(),
                node_options_spec(a) == node_options_from(
                    a,
                    index as int,
                    table.log(),
                    string_views(flags@),
                ),
            decreases args@.len() - index,
        {
            let option = &args[index];
            assert(a[index as int] == option@);
            if !starts_with_dashes(option.as_str()) {
                return Err(concat_str("expected option starting with --, got ", option.as_str()));
            }
            let name = skip_two(option.as_str());
            if name.as_str().is_empty() {
                return Err("empty option name".to_owned());
            }
            if index + 1 < args.len() && !starts_with_dashes(args[index + 1].as_str()) {
                assert(a[index + 1] == args@[index + 1]@);
                let value = args[index + 1].clone();
                table.insert(name, value);
                index = index + 2;
            } else {
                let ghost before = string_views(flags@);
                flags.push(name);
                assert(string_views(flags@) =~= before.push(name@));
                index = index + 1;
            }
        }
        proof {
            table.lemma_view_is_log_map();
        }
        Ok(ParsedOptions { values: table, flags })
    }

    /// The value of option `name`, or an error naming the missing option.
    pub fn required(&self, name: &str) -> (result: Result<String, String>)
        ensures
            self@.dom().contains(name@) ==> (result matches Ok(v) && v@ == self@[name@]),
            !self@.dom().contains(name@) ==> (result matches Err(e) && e@ == "missing required --"@
                + name@),
    {
        match self.values.get(name) {
            Some(v) => Ok(v.clone()),
            None => Err(concat_str("missing required --", name)),
        }
    }

    /// The value of option `name`, if it was given with a value.
    pub fn optional(&self, name: &str) -> (result: Option<String>)
        ensures
            result is Some <==> self@.dom().contains(name@),
            result matches Some(v) ==> v@ == self@[name@],
    {
        match self.values.get(name) {
            Some(v) => Some(v.clone()),
            None => None,
        }
    }

    /// The value of option `name`, or `default` when it was not given.
    pub fn value_or(&self, name: &str, default: &str) -> (value: String)
        ensures
            self@.dom().contains(name@) ==> value@ == self@[name@],
            !self@.dom().contains(name@) ==> value@ == default@,
    {
        match self.values.get(name) {
            Some(v) => v.clone(),
            None => default.to_owned(),
        }
    }
}

/// The node's message for an option value that is not an integer of the
/// expected type.
pub open spec fn node_int_error(name: Seq<char>, expected_type: Seq<char>, value: Seq<char>) -> Seq<
    char,
> {
    "invalid --"@ + name + ": expected "@ + expected_type + ", got "@ + value
}

fn node_int_error_message(name: &str, expected_type: &str, value: &str) -> (out: String)
    ensures
        out@ == node_int_error(name@, expected_type@, value@),
{
    let mut out = concat_str("invalid --", name);
    out.append(": expected ");
    out.append(expected_type);
    out.append(", got ");
    out.append(value);
    out
}

/// Parses option `name`'s value as a `u64`.
pub fn parse_u64(value: &str, name: &str) -> (result: Result<u64, String>)
    ensures
        match parse_unsigned_spec(value@, u64::MAX as int) {
            Ok(v) => result == Ok::<u64, String>(v as u64),
            Err(_) => result matches Err(e) && e@ == node_int_error(name@, "u64"@, value@),
        },
{
    match parse_u64_value(value) {
        Ok(v) => Ok(v),
        Err(_) => Err(node_int_error_message(name, "u64", value)),
    }
}

/// Parses option `name`'s value as a `usize`.
pub fn parse_usize(value: &str, name: &str) -> (result: Result<usize, String>)
    ensures
        match parse_unsigned_spec(value@, usize::MAX as int) {
            Ok(v) => result == Ok::<usize, String>(v as usize),
            Err(_) => result matches Err(e) && e@ == node_int_error(name@, "usize"@, value@),
        },
{
    match parse_usize_value(value) {
        Ok(v) => Ok(v),
        Err(_) => Err(node_int_error_message(name, "usize", value)),
    }
}

/// Parses option `name`'s value as a `u128`.
pub fn parse_u128(value: &str, name: &str) -> (result: Result<u128, String>)
    ensures
        match parse_unsigned_spec(value@, u128::MAX as int) {
            Ok(v) => result == Ok::<u128, String>(v as u128),
            Err(_) => result matches Err(e) && e@ == node_int_error(name@, "u128"@, value@),
        },
{
    match parse_u128_value(value) {
        Ok(v) => Ok(v),
        Err(_) => Err(node_int_error_message(name, "u128", value)),
    }
}

/// The trimmed, nonempty fields of a comma-separated list.
pub fn split_csv(value: &str) -> (items: Vec<String>)
    ensures
        views(items@) == csv_items_spec(value@),
{
    csv_items(value)
}

/// Big-endian encoding of a 64-bit value.
pub open spec fn be_u64(v: int) -> Seq<u8> {
    seq![
        ((v / 72057594037927936) % 256) as u8,
        ((v / 281474976710656) % 256) as u8,
        ((v / 1099511627776) % 256) as u8,
        ((v / 4294967296) % 256) as u8,
        ((v / 16777216) % 256) as u8,
        ((v / 65536) % 256) as u8,
        ((v / 256) % 256) as u8,
        (v % 256) as u8,
    ]
}

/// The domain tag that opens every validator key seed derivation.
pub open spec fn key_seed_domain() -> Seq<u8> {
    encode_utf8("detta.bft.key.v1"@)
}

/// The bytes hashed to derive a validator's key seed: the domain tag, the
/// master seed's length as a big-endian `u64`, the master seed, and the
/// validator id's UTF-8 bytes.
pub open spec fn key_seed_preimage(master: Seq<u8>, validator_id: Seq<char>) -> Seq<u8> {
    key_seed_domain() + be_u64(master.len() as int) + master + encode_utf8(validator_id)
}

/// Under one master seed, distinct validator ids have distinct key seed
/// preimages: the id's bytes follow a prefix that depends on the master
/// seed alone, and UTF-8 encoding loses nothing.
pub proof fn key_seed_preimages_distinct(master: Seq<u8>, a: Seq<char>, b: Seq<char>)
    requires
        a != b,
    ensures
        key_seed_preimage(master, a) != key_seed_preimage(master, b),
{
    let prefix = key_seed_domain() + be_u64(master.len() as int) + master;
    let pa = key_seed_preimage(master, a);
    let pb = key_seed_preimage(master, b);
    if pa == pb {
        assert(encode_utf8(a) =~= pa.subrange(prefix.len() as int, pa.len() as int));
        assert(encode_utf8(b) =~= pb.subrange(prefix.len() as int, pb.len() as int));
        vstd::utf8::encode_utf8_decode_utf8(a);
        vstd::utf8::encode_utf8_decode_utf8(b);
    }
}

fn push_all(out: &mut Vec<u8>, bytes: &[u8])
    ensures
        final(out)@ == old(out)@ + bytes@,
{
    let mut i: usize = 0;
    while i < bytes.len()
        invariant
            i <= bytes@.len(),
            out@ == old(out)@ + bytes@.subrange(0, i as int),
        decreases bytes@.len() - i,
    {
        out.push(bytes[i]);
        i = i + 1;
        assert(out@ =~= old(out)@ + bytes@.subrange(0, i as int));
    }
    assert(bytes@.subrange(0, bytes@.len() as int) =~= bytes@);
}

/// The 32-byte key seed of `validator_id` under the shared `master` seed:
/// the SHA-256 digest of `key_seed_preimage(master, validator_id)`. Distinct
/// validators hash distinct preimages (`key_seed_preimages_distinct`), so
/// their seeds differ unless SHA-256 collides, and any node holding the
/// master seed and the roster can recompute every validator's seed.
pub fn validator_key_seed(master: &[u8], validator_id: &str) -> (seed: Vec<u8>)
    ensures
        seed@ == sha256(key_seed_preimage(master@, validator_id@)),
        seed@.len() == 32,
{
    let mut preimage: Vec<u8> = Vec::new();
    push_all(&mut preimage, "detta.bft.key.v1".as_bytes());
    let len: u64 = master.len() as u64;
    preimage.push(((len / 72057594037927936) % 256) as u8);
    preimage.push(((len / 281474976710656) % 256) as u8);
    preimage.push(((len / 1099511627776) % 256) as u8);
    preimage.push(((len / 4294967296) % 256) as u8);
    preimage.push(((len / 16777216) % 256) as u8);
    preimage.push(((len / 65536) % 256) as u8);
    preimage.push(((len / 256) % 256) as u8);
    preimage.push((len % 256) as u8);
    push_all(&mut preimage, master);
    push_all(&mut preimage, validator_id.as_bytes());
    assert(preimage@ =~= key_seed_preimage(master@, validator_id@));
    sha256_digest(preimage.as_slice())
}

/// The values of the environment variables that configure BFT mode; `None`
/// where a variable is unset.
pub struct BftEnvironment {
    /// `DETTA_BFT`
    pub bft: Option<String>,
    /// `DETTA_VALIDATORS`
    pub validators: Option<String>,
    /// `DETTA_PROPOSER`
    pub proposer: Option<String>,
    /// `DETTA_QUORUM`
    pub quorum: Option<String>,
    /// `DETTA_NETWORK_ID`
    pub network_id: Option<String>,
    /// `DETTA_CONSENSUS_SEED`
    pub consensus_seed: Option<String>,
    /// `DETTA_CONSENSUS_LISTEN`
    pub consensus_listen: Option<String>,
    /// `DETTA_CONSENSUS_PEERS`
    pub consensus_peers: Option<String>,
    /// `DETTA_PRODUCE_INTERVAL_SECS`
    pub produce_interval_secs: Option<String>,
    /// `DETTA_BACKFILL_PEER`
    pub backfill_peer: Option<String>,
    /// `DETTA_SYNC_INTERVAL_SECS`
    pub sync_interval_secs: Option<String>,
}

/// BFT settings: the roster, the fixed proposer, the quorum, the shared key
/// seed, and the consensus transport and timing.
pub struct BftConfig {
    pub validator_id: String,
    pub roster: Vec<String>,
    pub proposer: String,
    pub network_id: String,
    pub seed: Vec<u8>,
    pub listen: Option<String>,
    pub peers: Vec<String>,
    pub round_interval_secs: u64,
    pub quorum: usize,
    pub backfill_peer: Option<String>,
    pub backfill_interval_secs: u64,
}

/// Whether the `DETTA_BFT` value switches BFT mode on.
pub open spec fn bft_enabled_spec(value: Option<Seq<char>>) -> bool {
    match value {
        Some(v) => v == "1"@ || v == "true"@ || v == "TRUE"@ || v == "yes"@,
        None => false,
    }
}

/// The view of an optional string.
pub open spec fn opt_view(value: Option<String>) -> Option<Seq<char>> {
    match value {
        Some(v) => Some(v@),
        None => None,
    }
}

/// An environment variable read as a `u64`: absent when unset or not a
/// number.
pub open spec fn env_u64_spec(value: Option<Seq<char>>) -> Option<u64> {
    match value {
        Some(v) => match parse_unsigned_spec(v, u64::MAX as int) {
            Ok(n) => Some(n as u64),
            Err(_) => None,
        },
        None => None,
    }
}

/// An environment variable's text, absent when unset or empty.
pub open spec fn nonempty_spec(value: Option<Seq<char>>) -> Option<Seq<char>> {
    match value {
        Some(v) => if v.len() > 0 {
            Some(v)
        } else {
            None
        },
        None => None,
    }
}

/// An interval in seconds: the configured number, `default` when it is
/// absent, and never below one second.
pub open spec fn interval_secs_spec(value: Option<Seq<char>>, default: u64) -> u64 {
    let secs = match env_u64_spec(value) {
        Some(n) => n,
        None => default,
    };
    if secs < 1 {
        1
    } else {
        secs
    }
}

/// Reads an environment value as a `u64`, like `value.parse().ok()`.
pub fn env_u64(value: &Option<String>) -> (result: Option<u64>)
    ensures
        result == env_u64_spec(opt_view(*value)),
{
    match value {
        Some(v) => match parse_u64_value(v.as_str()) {
            Ok(n) => Some(n),
            Err(_) => None,
        },
        None => None,
    }
}

fn nonempty(value: &Option<String>) -> (result: Option<String>)
    ensures
        opt_view(result) == nonempty_spec(opt_view(*value)),
{
    match value {
        Some(v) => if v.as_str().is_empty() {
            None
        } else {
            Some(v.clone())
        },
        None => None,
    }
}

fn interval_secs(value: &Option<String>, default: u64) -> (secs: u64)
    ensures
        secs == interval_secs_spec(opt_view(*value), default),
{
    let secs = match env_u64(value) {
        Some(n) => n,
        None => default,
    };
    if secs < 1 {
        1
    } else {
        secs
    }
}

fn text_or(value: &Option<String>, default: &str) -> (out: String)
    ensures
        out@ == match opt_view(*value) {
            Some(v) => v,
            None => default@,
        },
{
    match value {
        Some(v) => v.clone(),
        None => default.to_owned(),
    }
}

impl BftConfig {
    /// The BFT settings of validator `validator_id`, or `None` when BFT mode
    /// is off or the roster is empty. `default_quorum` is the quorum used
    /// when `DETTA_QUORUM` does not give one.
    pub fn from_env_values(validator_id: &str, env: &BftEnvironment, default_quorum: usize) -> (result:
        Option<Self>)
        ensures
            !bft_enabled_spec(opt_view(env.bft)) ==> result is None,
            bft_enabled_spec(opt_view(env.bft)) && csv_items_spec(
                match opt_view(env.validators) {
                    Some(v) => v,
                    None => Seq::empty(),
                },
            ).len() == 0 ==> result is None,
            result matches Some(config) ==> {
                let roster = csv_items_spec(
                    match opt_view(env.validators) {
                        Some(v) => v,
                        None => Seq::empty(),
                    },
                );
                &&& bft_enabled_spec(opt_view(env.bft))
                &&& roster.len() > 0
                &&& config.validator_id@ == validator_id@
                &&& views(config.roster@) == roster
                &&& config.proposer@ == match opt_view(env.proposer) {
                    Some(p) => p,
                    None => roster[0],
                }
                &&& config.quorum == match env_u64_spec(opt_view(env.quorum)) {
                    Some(q) => #[verifier::truncate] (q as usize),
                    None => default_quorum,
                }
                &&& config.network_id@ == match opt_view(env.network_id) {
                    Some(n) => n,
                    None => "detta-local-bft"@,
                }
                &&& config.seed@ == encode_utf8(
                    match opt_view(env.consensus_seed) {
                        Some(s) => s,
                        None => "detta-bft-dev-seed"@,
                    },
                )
                &&& opt_view(config.listen) == nonempty_spec(opt_view(env.consensus_listen))
                &&& views(config.peers@) == csv_items_spec(
                    match opt_view(env.consensus_peers) {
                        Some(v) => v,
                        None => Seq::empty(),
                    },
                )
                &&& config.round_interval_secs == interval_secs_spec(
                    opt_view(env.produce_interval_secs),
                    5,
                )
                &&& opt_view(config.backfill_peer) == nonempty_spec(opt_view(env.backfill_peer))
                &&& config.backfill_interval_secs == interval_secs_spec(
                    opt_view(env.sync_interval_secs),
                    2,
                )
            },
            bft_enabled_spec(opt_view(env.bft)) && csv_items_spec(
                match opt_view(env.validators) {
                    Some(v) => v,
                    None => Seq::empty(),
                },
            ).len() > 0 ==> result is Some,
    {
        let enabled = match &env.bft {
            Some(v) => str_eq(v.as_str(), "1") || str_eq(v.as_str(), "true") || str_eq(
                v.as_str(),
                "TRUE",
            ) || str_eq(v.as_str(), "yes"),
            None => false,
        };
        if !enabled {
            return None;
        }
        proof {
            reveal_strlit("");
        }
        let validators = text_or(&env.validators, "");
        let roster = split_csv(validators.as_str());
        assert(views(roster@).len() == roster@.len());
        if roster.len() == 0 {
            return None;
        }
        let proposer = match &env.proposer {
            Some(p) => p.clone(),
            None => roster[0].clone(),
        };
        let quorum = match env_u64(&env.quorum) {
            Some(q) => #[verifier::truncate] (q as usize),
            None => default_quorum,
        };
        let network_id = text_or(&env.network_id, "detta-local-bft");
        let seed_text = text_or(&env.consensus_seed, "detta-bft-dev-seed");
        let seed = vstd::slice::slice_to_vec(seed_text.as_str().as_bytes());
        let peers_text = text_or(&env.consensus_peers, "");
        let peers = split_csv(peers_text.as_str());
        Some(BftConfig {
            validator_id: validator_id.to_owned(),
            roster,
            proposer,
            network_id,
            seed,
            listen: nonempty(&env.consensus_listen),
            peers,
            round_interval_secs: interval_secs(&env.produce_interval_secs, 5),
            quorum,
            backfill_peer: nonempty(&env.backfill_peer),
            backfill_interval_secs: interval_secs(&env.sync_interval_secs, 2),
        })
    }

    /// The validators of the roster as a set, in ascending order.
    pub fn active_validators(&self) -> (active: IdSet)
        ensures
            active.wf(),
            active@ == views(self.roster@).to_set(),
    {
        let mut active = IdSet::new();
        let mut i: usize = 0;
        while i < self.roster.len()
            invariant
                i <= self.roster@.len(),
                active.wf(),
                active@ == views(self.roster@).take(i as int).to_set(),
            decreases self.roster@.len() - i,
        {
            active.insert(crate::text::owned(self.roster[i].as_str()));
            assert(views(self.roster@).take(i + 1) =~= views(self.roster@).take(i as int).push(
                self.roster@[i as int]@,
            ));
            proof {
                views(self.roster@).take(i as int).lemma_push_to_set_commute(self.roster@[i as int]@);
            }
            i = i + 1;
        }
        assert(views(self.roster@).take(self.roster@.len() as int) =~= views(self.roster@));
        active
    }

    /// The seed of this validator's own signing key.
    pub fn own_key(&self) -> (seed: Vec<u8>)
        ensures
            seed@ == sha256(key_seed_preimage(self.seed@, self.validator_id@)),
    {
        validator_key_seed(self.seed.as_slice(), self.validator_id.as_str())
    }
}

/// The replication roles of a node outside BFT mode.
pub struct ReplicationPlan {
    /// Produce a block every this many seconds (leader role).
    pub produce_interval_secs: Option<u64>,
    /// Pull blocks from this peer every this many seconds (follower role).
    pub sync: Option<(String, u64)>,
}

/// The replication roles that `DETTA_PRODUCE_INTERVAL_SECS`,
/// `DETTA_SYNC_PEER` and `DETTA_SYNC_INTERVAL_SECS` select: a leader when
/// the production interval is a positive number, a follower when the sync
/// peer is set and nonempty.
pub fn replication_plan(
    produce_interval: &Option<String>,
    sync_peer: &Option<String>,
    sync_interval: &Option<String>,
) -> (plan: ReplicationPlan)
    ensures
        plan.produce_interval_secs == match env_u64_spec(opt_view(*produce_interval)) {
            Some(secs) => if secs > 0 {
                Some(secs)
            } else {
                None
            },
            None => None,
        },
        nonempty_spec(opt_view(*sync_peer)) is None ==> plan.sync is None,
        nonempty_spec(opt_view(*sync_peer)) matches Some(peer) ==> (plan.sync matches Some(s)
            && s.0@ == peer && s.1 == interval_secs_spec(opt_view(*sync_interval), 2)),
{
    let produce_interval_secs = match env_u64(produce_interval) {
        Some(secs) => if secs > 0 {
            Some(secs)
        } else {
            None
        },
        None => None,
    };
    let sync = match nonempty(sync_peer) {
        Some(peer) => Some((peer, interval_secs(sync_interval, 2))),
        None => None,
    };
    ReplicationPlan { produce_interval_secs, sync }
}

/// The height and timestamp of the next block a leader produces after
/// `current_height`: the next height, stamped at a thousand times the
/// height (saturating).
pub fn next_block_slot(current_height: u64) -> (slot: (u64, u64))
    requires
        current_height < u64::MAX,
    ensures
        slot.0 == current_height + 1,
        slot.1 == if (current_height + 1) * 1000 > u64::MAX {
            u64::MAX as int
        } else {
            (current_height + 1) * 1000
        },
{
    let height = current_height + 1;
    assert((height > u64::MAX / 1000) == (height * 1000 > u64::MAX)) by (nonlinear_arith)
        requires
            height >= 0,
    ;
    let timestamp = if height > u64::MAX / 1000 {
        u64::MAX
    } else {
        height * 1000
    };
    (height, timestamp)
}

/// The node binary's usage text.
pub fn usage() -> (text: String)
    ensures
        text@ == NODE_USAGE_TEXT@,
{
    NODE_USAGE_TEXT.to_owned()
}

/// The node binary's usage text.
pub const NODE_USAGE_TEXT: &'static str = "Usage:\n  detta-node write-genesis --output PATH [--chain-id detta-local] [--preset defi-demo]\n  detta-node serve --storage DIR --genesis PATH [--validator-id validator-1] [--rpc 127.0.0.1:8080] [--transport tcp|http] [--max-connections N]\n  detta-node faucet-tx --to ACCOUNT --amount AMOUNT [--chain-id detta-local] [--token TokenA] [--asset USDC] [--faucet Faucet] [--nonce N] [--tx-hash HASH] [--valid-until-height H]\n\nNotes:\n  --max-connections 0, the default, serves forever.\n  serve restarts from --storage when latest_snapshot.bin exists; --genesis is only used for first boot.\n";

} // verus!
