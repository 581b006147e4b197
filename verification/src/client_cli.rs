//! The command-line option grammar of the DeTTa RPC client: `--name value`
//! or `--name=value` pairs, integer options, retention classes and
//! comma-separated lists.
use crate::numeric::{
    int_error_message, int_error_text, parse_u128_value, parse_u32_value, parse_u64_value,
    parse_unsigned_spec, IntErrorKind,
};
use crate::options::{
    entries_map, first_index_of, skip_two, split_once_eq, string_views, Entry, OptionTable,
};
use crate::text::{
    ascii_lower_spec, ascii_lowercase, concat_str, csv_items, csv_items_spec, has_dash_prefix,
    starts_with_dashes, str_eq, views,
};
use vstd::prelude::*;

verus! {

/// The outcome of reading the client's options from `args[index..]`, with
/// `acc` the entries read so far.
pub open spec fn client_options_from(args: Seq<Seq<char>>, index: int, acc: Seq<Entry>) -> Result<
    Seq<Entry>,
    Seq<char>,
>
    decreases args.len() - index,
{
    if index < 0 || index >= args.len() {
        Ok(acc)
    } else {
        let raw = args[index];
        if !has_dash_prefix(raw) {
            Err("unexpected positional argument: "@ + raw)
        } else {
            let option = raw.skip(2);
            let eq = first_index_of(option, '=');
            if option.len() == 0 {
                Err("empty option name"@)
            } else if eq < option.len() {
                if eq == 0 {
                    Err("empty option name"@)
                } else {
                    client_options_from(
                        args,
                        index + 1,
                        acc.push((option.take(eq), option.skip(eq + 1))),
                    )
                }
            } else if index + 1 < args.len() && !has_dash_prefix(args[index + 1]) {
                client_options_from(args, index + 2, acc.push((option, args[index + 1])))
            } else {
                Err("missing value for --"@ + option)
            }
        }
    }
}

/// The entries that the client reads from `args`, or the error message.
pub open spec fn client_options_spec(args: Seq<Seq<char>>) -> Result<Seq<Entry>, Seq<char>> {
    client_options_from(args, 0, Seq::empty())
}

/// The client's parsed options: a map from option names to values.
pub struct ParsedOptions {
    values: OptionTable,
}

impl View for ParsedOptions {
    type V = Map<Seq<char>, Seq<char>>;

    closed spec fn view(&self) -> Map<Seq<char>, Seq<char>> {
        self.values@
    }
}

impl ParsedOptions {
    /// Reads `--name value` and `--name=value` options. A later option with
    /// the same name replaces an earlier one.
    pub fn parse(args: &[String]) -> (result: Result<Self, String>)
        ensures
            match client_options_spec(string_views(args@)) {
                Ok(log) => result matches Ok(options) && options@ == entries_map(log),
                Err(message) => result matches Err(e) && e@ == message,
            },
    {
        let ghost a = string_views(args@);
        let mut table = OptionTable::new();
        let mut index: usize = 0;
        while index < args.len()
            invariant
                a == string_views(args@),
                index <= args@.len(),
                client_options_spec(a) == client_options_from(a, index as int, table.log()),
            decreases args@.len() - index,
        {
            let raw = &args[index];
            assert(a[index as int] == raw@);
            if !starts_with_dashes(raw.as_str()) {
                return Err(concat_str("unexpected positional argument: ", raw.as_str()));
            }
            let option = skip_two(raw.as_str());
            if option.as_str().is_empty() {
                return Err("empty option name".to_owned());
            }
            match split_once_eq(option.as_str()) {
                Some(kv) => {
                    let (key, value) = kv;
                    if key.as_str().is_empty() {
                        return Err("empty option name".to_owned());
                    }
                    table.insert(key, value);
                    index = index + 1;
                },
                None => {
                    if index + 1 < args.len() && !starts_with_dashes(args[index + 1].as_str()) {
                        assert(a[index + 1] == args@[index + 1]@);
                        let value = args[index + 1].clone();
                        table.insert(option, value);
                        index = index + 2;
                    } else {
                        return Err(concat_str("missing value for --", option.as_str()));
                    }
                },
            }
        }
        proof {
            table.lemma_view_is_log_map();
        }
        Ok(ParsedOptions { values: table })
    }

    /// The value of option `key`, or an error naming the missing option.
    pub fn required(&self, key: &str) -> (result: Result<String, String>)
        ensures
            self@.dom().contains(key@) ==> (result matches Ok(v) && v@ == self@[key@]),
            !self@.dom().contains(key@) ==> (result matches Err(e) && e@
                == "missing required option --"@ + key@),
    {
        match self.values.get(key) {
            Some(v) => Ok(v.clone()),
            None => Err(concat_str("missing required option --", key)),
        }
    }

    /// The value of option `key`, if it was given.
    pub fn optional(&self, key: &str) -> (result: Option<String>)
        ensures
            result is Some <==> self@.dom().contains(key@),
            result matches Some(v) ==> v@ == self@[key@],
    {
        match self.values.get(key) {
            Some(v) => Some(v.clone()),
            None => None,
        }
    }

    /// The value of option `key`, or `default` when it was not given.
    pub fn value_or(&self, key: &str, default: &str) -> (value: String)
        ensures
            self@.dom().contains(key@) ==> value@ == self@[key@],
            !self@.dom().contains(key@) ==> value@ == default@,
    {
        match self.values.get(key) {
            Some(v) => v.clone(),
            None => default.to_owned(),
        }
    }
}

/// The client's message for an option value that is not an integer.
pub open spec fn client_int_error(label: Seq<char>, kind: IntErrorKind) -> Seq<char> {
    "invalid --"@ + label + ": "@ + int_error_text(kind)
}

fn client_int_error_message(label: &str, kind: IntErrorKind) -> (out: String)
    ensures
        out@ == client_int_error(label@, kind),
{
    let mut out = concat_str("invalid --", label);
    out.append(": ");
    let detail = int_error_message(kind);
    out.append(detail.as_str());
    out
}

/// Parses option `label`'s value as a `u64`.
pub fn parse_u64(value: &str, label: &str) -> (result: Result<u64, String>)
    ensures
        match parse_unsigned_spec(value@, u64::MAX as int) {
            Ok(v) => result == Ok::<u64, String>(v as u64),
            Err(kind) => result matches Err(e) && e@ == client_int_error(label@, kind),
        },
{
    match parse_u64_value(value) {
        Ok(v) => Ok(v),
        Err(kind) => Err(client_int_error_message(label, kind)),
    }
}

/// Parses option `label`'s value as a `u32`.
pub fn parse_u32(value: &str, label: &str) -> (result: Result<u32, String>)
    ensures
        match parse_unsigned_spec(value@, u32::MAX as int) {
            Ok(v) => result == Ok::<u32, String>(v as u32),
            Err(kind) => result matches Err(e) && e@ == client_int_error(label@, kind),
        },
{
    match parse_u32_value(value) {
        Ok(v) => Ok(v),
        Err(kind) => Err(client_int_error_message(label, kind)),
    }
}

/// Parses option `label`'s value as a `u128`.
pub fn parse_u128(value: &str, label: &str) -> (result: Result<u128, String>)
    ensures
        match parse_unsigned_spec(value@, u128::MAX as int) {
            Ok(v) => result == Ok::<u128, String>(v as u128),
            Err(kind) => result matches Err(e) && e@ == client_int_error(label@, kind),
        },
{
    match parse_u128_value(value) {
        Ok(v) => Ok(v),
        Err(kind) => Err(client_int_error_message(label, kind)),
    }
}

/// Retention classes of data-availability manifests.
#[derive(Clone, Copy, Debug, PartialEq, Eq, Structural)]
pub enum DaRetentionClass {
    Hot,
    Warm,
    Cold,
    Checkpoint,
}

/// The retention class that `value` names, compared without regard to ASCII
/// case.
pub open spec fn retention_class_spec(value: Seq<char>) -> Option<DaRetentionClass> {
    let lower = ascii_lower_spec(value);
    if lower == "hot"@ {
        Some(DaRetentionClass::Hot)
    } else if lower == "warm"@ {
        Some(DaRetentionClass::Warm)
    } else if lower == "cold"@ {
        Some(DaRetentionClass::Cold)
    } else if lower == "checkpoint"@ {
        Some(DaRetentionClass::Checkpoint)
    } else {
        None
    }
}

/// Parses a retention class name (`hot`, `warm`, `cold` or `checkpoint`, in
/// any ASCII case).
pub fn parse_da_retention_class(value: &str) -> (result: Result<DaRetentionClass, String>)
    ensures
        match retention_class_spec(value@) {
            Some(class) => result == Ok::<DaRetentionClass, String>(class),
            None => result matches Err(e) && e@
                == "invalid --class: expected hot, warm, cold, or checkpoint, got "@ + value@,
        },
{
    let lower = ascii_lowercase(value);
    if str_eq(lower.as_str(), "hot") {
        Ok(DaRetentionClass::Hot)
    } else if str_eq(lower.as_str(), "warm") {
        Ok(DaRetentionClass::Warm)
    } else if str_eq(lower.as_str(), "cold") {
        Ok(DaRetentionClass::Cold)
    } else if str_eq(lower.as_str(), "checkpoint") {
        Ok(DaRetentionClass::Checkpoint)
    } else {
        Err(concat_str("invalid --class: expected hot, warm, cold, or checkpoint, got ", value))
    }
}

/// The comma-separated fields of an optional option value: none when the
/// option is absent.
pub fn parse_csv_option(value: Option<String>) -> (items: Vec<String>)
    ensures
        value is None ==> items@.len() == 0,
        value matches Some(v) ==> views(items@) == csv_items_spec(v@),
{
    match value {
        Some(raw) => csv_items(raw.as_str()),
        None => Vec::new(),
    }
}

} // verus!
