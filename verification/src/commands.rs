//! The command set and its wire layout: every operation maps to a fixed
//! token and flattens its operands into an ordered argument list by a fixed
//! per-operation rule.
//!
//! The layout is specified by [`cmd_token`] and [`cmd_args`]; the executable
//! [`Command::wire_message`] is proved to produce exactly that layout.

use vstd::prelude::*;

use crate::numtext::dec_int;
use crate::numtext::dec_nat;
use crate::numtext::i64_text;
use crate::numtext::u64_text;
use crate::values::arg_of_scalar;
use crate::values::scalar_of_input;
use crate::values::SetInput;
use vstd::string::StringExecFns;

verus! {

/// A special input type for the DEL operation.
#[derive(Debug, Clone, PartialEq)]
pub enum DelInput<'a> {
    /// A single key to delete.
    Single(&'a str),
    /// Multiple keys to delete.
    Multiple(Vec<&'a str>),
}

/// A special input type for the HSET operation: either a single field-value
/// pair or many.
#[derive(Debug, Clone, PartialEq)]
pub enum HSetInput<'a> {
    /// A single field-value pair.
    Single(&'a str, &'a str),
    /// Multiple field-value pairs.
    Multiple(Vec<(&'a str, &'a str)>),
}

/// Expire options for the EXPIRE command.
#[derive(Debug, Clone, Copy, PartialEq, Eq)]
pub enum ExpireOption {
    /// Don't overwrite an existing expiration time.
    NX,
    /// Only set the expiration time if one already exists.
    XX,
    /// Always set the expiration time.
    Always,
}

/// Expire options for the EXPIREAT command.
#[derive(Debug, Clone, Copy, PartialEq, Eq)]
pub enum ExpireAtOption {
    /// Don't overwrite an existing expiration time.
    NX,
    /// Only set the expiration time if one already exists.
    XX,
    /// Set the expiration time only if it's greater than the existing one.
    GT,
    /// Set the expiration time only if it's less than the existing one.
    LT,
    /// Always set the expiration time.
    Always,
}

/// Options for the GETEX command.
#[derive(Debug, Clone, Copy, PartialEq, Eq, Hash, PartialOrd, Ord)]
pub enum GetexOption {
    /// Set the expiration to seconds from now.
    EX(u64),
    /// Set the expiration to milliseconds from now.
    PX(u64),
    /// Set the expiration to a Unix timestamp.
    EXAT(u64),
    /// Set the expiration to a Unix timestamp in milliseconds.
    PXAT(u64),
    /// Remove the expiration from the key.
    PERSIST,
}

/// Options for the SET command.
#[derive(Debug, Clone, Copy, PartialEq, Eq, Hash, PartialOrd, Ord)]
pub enum SetOption {
    /// Set the expiration time in seconds.
    EX(u64),
    /// Set the expiration time in milliseconds.
    PX(u64),
    /// Set the expiration time in seconds since epoch.
    EXAT(u64),
    /// Set the expiration time in milliseconds since epoch.
    PXAT(u64),
    /// Only set the key if it already exists.
    XX,
    /// Only set the key if it does not already exist.
    NX,
    /// Keep the existing TTL of the key.
    KEEPTTL,
    /// No special option.
    Plain,
}

/// The execution mode a connection announces in its handshake: a plain
/// command connection or a watch connection.
#[derive(Debug, Clone, Copy, PartialEq, Eq)]
pub enum ExecutionMode {
    /// A request/response command connection.
    Command,
    /// A watch connection carrying push updates.
    Watch,
}

/// The handshake token for an execution mode.
pub open spec fn mode_text(m: ExecutionMode) -> Seq<char> {
    match m {
        ExecutionMode::Command => "command"@,
        ExecutionMode::Watch => "watch"@,
    }
}

impl ExecutionMode {
    /// The handshake token for this mode.
    pub fn as_arg(&self) -> (r: String)
        ensures
            r@ == mode_text(*self),
    {
        match self {
            ExecutionMode::Command => String::from_str("command"),
            ExecutionMode::Watch => String::from_str("watch"),
        }
    }
}

/// A command to be serialized and sent to the server, with its typed
/// operands. Immutable once constructed; consumed exactly once by encoding.
#[derive(Debug, Clone, PartialEq)]
#[allow(missing_docs)]
pub enum Command {
    DECR { key: String },
    DECRBY { key: String, delta: i64 },
    DEL { keys: Vec<String> },
    ECHO { message: String },
    EXISTS { key: String, additional_keys: Vec<String> },
    EXPIRE { key: String, seconds: i64, option: ExpireOption },
    EXPIREAT { key: String, timestamp: i64, option: ExpireAtOption },
    EXPIRETIME { key: String },
    FLUSHDB,
    GET { key: String },
    GETDEL { key: String },
    GETEX { key: String, ex: GetexOption },
    HSET { key: String, fields: Vec<(String, String)> },
    HGET { key: String, field: String },
    HGETALL { key: String },
    GETWATCH { key: String },
    HANDSHAKE { client_id: String, execution_mode: ExecutionMode },
    INCR { key: String },
    INCRBY { key: String, delta: i64 },
    PING,
    SET { key: String, value: SetInput, option: SetOption, get: bool },
    TTL { key: String },
    TYPE { key: String },
    UNWATCH { key: String },
}

/// The views of a list of strings.
pub open spec fn strings_view(v: Seq<String>) -> Seq<Seq<char>> {
    v.map_values(|s: String| s@)
}

/// The views of a list of string pairs.
pub open spec fn pairs_view(v: Seq<(String, String)>) -> Seq<(Seq<char>, Seq<char>)> {
    v.map_values(|p: (String, String)| (p.0@, p.1@))
}

/// Field-value pairs flattened into alternating argument tokens.
pub open spec fn pair_args(ps: Seq<(Seq<char>, Seq<char>)>) -> Seq<Seq<char>>
    decreases ps.len(),
{
    if ps.len() == 0 {
        Seq::empty()
    } else {
        pair_args(ps.drop_last()) + seq![ps.last().0, ps.last().1]
    }
}

/// The trailing tokens an EXPIRE option contributes.
pub open spec fn expire_opt_args(o: ExpireOption) -> Seq<Seq<char>> {
    match o {
        ExpireOption::NX => seq!["NX"@],
        ExpireOption::XX => seq!["XX"@],
        ExpireOption::Always => Seq::empty(),
    }
}

/// The trailing tokens an EXPIREAT option contributes.
pub open spec fn expireat_opt_args(o: ExpireAtOption) -> Seq<Seq<char>> {
    match o {
        ExpireAtOption::NX => seq!["NX"@],
        ExpireAtOption::XX => seq!["XX"@],
        ExpireAtOption::GT => seq!["GT"@],
        ExpireAtOption::LT => seq!["LT"@],
        ExpireAtOption::Always => Seq::empty(),
    }
}

/// The trailing tokens a GETEX option contributes.
pub open spec fn getex_opt_args(o: GetexOption) -> Seq<Seq<char>> {
    match o {
        GetexOption::EX(s) => seq!["EX"@, dec_nat(s as int)],
        GetexOption::PX(ms) => seq!["PX"@, dec_nat(ms as int)],
        GetexOption::EXAT(t) => seq!["EXAT"@, dec_nat(t as int)],
        GetexOption::PXAT(t) => seq!["PXAT"@, dec_nat(t as int)],
        GetexOption::PERSIST => seq!["PERSIST"@],
    }
}

/// The trailing tokens a SET option contributes.
pub open spec fn set_opt_args(o: SetOption) -> Seq<Seq<char>> {
    match o {
        SetOption::EX(s) => seq!["EX"@, dec_nat(s as int)],
        SetOption::PX(ms) => seq!["PX"@, dec_nat(ms as int)],
        SetOption::EXAT(t) => seq!["EXAT"@, dec_nat(t as int)],
        SetOption::PXAT(t) => seq!["PXAT"@, dec_nat(t as int)],
        SetOption::XX => seq!["XX"@],
        SetOption::NX => seq!["NX"@],
        SetOption::KEEPTTL => seq!["KEEPTTL"@],
        SetOption::Plain => Seq::empty(),
    }
}

/// The operation token of a command.
pub open spec fn cmd_token(c: Command) -> Seq<char> {
    match c {
        Command::DECR { .. } => "DECR"@,
        Command::DECRBY { .. } => "DECRBY"@,
        Command::DEL { .. } => "DEL"@,
        Command::ECHO { .. } => "ECHO"@,
        Command::EXISTS { .. } => "EXISTS"@,
        Command::EXPIRE { .. } => "EXPIRE"@,
        Command::EXPIREAT { .. } => "EXPIREAT"@,
        Command::EXPIRETIME { .. } => "EXPIRETIME"@,
        Command::FLUSHDB => "FLUSHDB"@,
        Command::GET { .. } => "GET"@,
        Command::GETDEL { .. } => "GETDEL"@,
        Command::GETEX { .. } => "GETEX"@,
        Command::HSET { .. } => "HSET"@,
        Command::HGET { .. } => "HGET"@,
        Command::HGETALL { .. } => "HGETALL"@,
        Command::GETWATCH { .. } => "GET.WATCH"@,
        Command::HANDSHAKE { .. } => "HANDSHAKE"@,
        Command::INCR { .. } => "INCR"@,
        Command::INCRBY { .. } => "INCRBY"@,
        Command::PING => "PING"@,
        Command::SET { .. } => "SET"@,
        Command::TTL { .. } => "TTL"@,
        Command::TYPE { .. } => "TYPE"@,
        Command::UNWATCH { .. } => "UNWATCH"@,
    }
}

/// The ordered argument list of a command: the fixed per-operation layout
/// rule.
pub open spec fn cmd_args(c: Command) -> Seq<Seq<char>> {
    match c {
        Command::DECR { key } => seq![key@],
        Command::DECRBY { key, delta } => seq![key@, dec_int(delta as int)],
        Command::DEL { keys } => strings_view(keys@),
        Command::ECHO { message } => seq![message@],
        Command::EXISTS { key, additional_keys } => seq![key@] + strings_view(additional_keys@),
        Command::EXPIRE { key, seconds, option } => seq![key@, dec_int(seconds as int)]
            + expire_opt_args(option),
        Command::EXPIREAT { key, timestamp, option } => seq![key@, dec_int(timestamp as int)]
            + expireat_opt_args(option),
        Command::EXPIRETIME { key } => seq![key@],
        Command::FLUSHDB => Seq::empty(),
        Command::GET { key } => seq![key@],
        Command::GETDEL { key } => seq![key@],
        Command::GETEX { key, ex } => seq![key@] + getex_opt_args(ex),
        Command::HSET { key, fields } => seq![key@] + pair_args(pairs_view(fields@)),
        Command::HGET { key, field } => seq![key@, field@],
        Command::HGETALL { key } => seq![key@],
        Command::GETWATCH { key } => seq![key@],
        Command::HANDSHAKE { client_id, execution_mode } => seq![
            client_id@,
            mode_text(execution_mode),
        ],
        Command::INCR { key } => seq![key@],
        Command::INCRBY { key, delta } => seq![key@, dec_int(delta as int)],
        Command::PING => Seq::empty(),
        Command::SET { key, value, option, get } => seq![
            key@,
            arg_of_scalar(scalar_of_input(value@)),
        ] + set_opt_args(option) + (if get {
            seq!["GET"@]
        } else {
            Seq::empty()
        }),
        Command::TTL { key } => seq![key@],
        Command::TYPE { key } => seq![key@],
        Command::UNWATCH { key } => seq![key@],
    }
}

/// The serialized form of a command before framing: the operation token and
/// the ordered argument list.
#[derive(Debug, Clone, PartialEq)]
pub struct WireMessage {
    /// The operation token.
    pub cmd: String,
    /// The ordered argument tokens.
    pub args: Vec<String>,
}

/// Appends one argument token.
fn push_arg(args: &mut Vec<String>, s: String)
    ensures
        strings_view(final(args)@) == strings_view(old(args)@).push(s@),
{
    args.push(s);
    proof {
        assert(strings_view(args@) =~= strings_view(old(args)@).push(s@));
    }
}

/// Appends every token of a string list.
fn extend_args(args: &mut Vec<String>, keys: &Vec<String>)
    ensures
        strings_view(final(args)@) == strings_view(old(args)@) + strings_view(keys@),
{
    let n = keys.len();
    let mut i: usize = 0;
    while i < n
        invariant
            i <= n,
            n == keys@.len(),
            strings_view(args@) == strings_view(old(args)@) + strings_view(keys@.take(i as int)),
        decreases n - i,
    {
        push_arg(args, keys[i].clone());
        proof {
            assert(strings_view(keys@.take(i + 1)) =~= strings_view(keys@.take(i as int)).push(
                keys@[i as int]@,
            ));
            assert(strings_view(args@) =~= strings_view(old(args)@) + strings_view(
                keys@.take(i + 1),
            ));
        }
        i = i + 1;
    }
    proof {
        assert(keys@.take(n as int) =~= keys@);
    }
}

/// Appends the alternating tokens of a field-value pair list.
fn extend_pair_args(args: &mut Vec<String>, fields: &Vec<(String, String)>)
    ensures
        strings_view(final(args)@) == strings_view(old(args)@) + pair_args(pairs_view(fields@)),
{
    let n = fields.len();
    let mut i: usize = 0;
    while i < n
        invariant
            i <= n,
            n == fields@.len(),
            strings_view(args@) == strings_view(old(args)@) + pair_args(
                pairs_view(fields@.take(i as int)),
            ),
        decreases n - i,
    {
        push_arg(args, fields[i].0.clone());
        push_arg(args, fields[i].1.clone());
        proof {
            let pv = pairs_view(fields@.take(i + 1));
            assert(pv.drop_last() =~= pairs_view(fields@.take(i as int)));
            assert(pv.last() == (fields@[i as int].0@, fields@[i as int].1@));
            assert(strings_view(args@) =~= strings_view(old(args)@) + pair_args(pv));
        }
        i = i + 1;
    }
    proof {
        assert(fields@.take(n as int) =~= fields@);
    }
}

impl Command {
    /// Flattens this command into its operation token and argument list,
    /// following the fixed per-operation layout rule. Total: it never fails
    /// for a well-formed command value.
    pub fn wire_message(&self) -> (m: WireMessage)
        ensures
            m.cmd@ == cmd_token(*self),
            strings_view(m.args@) == cmd_args(*self),
    {
        let mut args: Vec<String> = Vec::new();
        proof {
            assert(strings_view(args@) =~= Seq::<Seq<char>>::empty());
        }
        let cmd: String = match self {
            Command::DECR { key } => {
                push_arg(&mut args, key.clone());
                String::from_str("DECR")
            },
            Command::DECRBY { key, delta } => {
                push_arg(&mut args, key.clone());
                push_arg(&mut args, i64_text(*delta));
                String::from_str("DECRBY")
            },
            Command::DEL { keys } => {
                extend_args(&mut args, keys);
                String::from_str("DEL")
            },
            Command::ECHO { message } => {
                push_arg(&mut args, message.clone());
                String::from_str("ECHO")
            },
            Command::EXISTS { key, additional_keys } => {
                push_arg(&mut args, key.clone());
                extend_args(&mut args, additional_keys);
                String::from_str("EXISTS")
            },
            Command::EXPIRE { key, seconds, option } => {
                push_arg(&mut args, key.clone());
                push_arg(&mut args, i64_text(*seconds));
                match option {
                    ExpireOption::NX => push_arg(&mut args, String::from_str("NX")),
                    ExpireOption::XX => push_arg(&mut args, String::from_str("XX")),
                    ExpireOption::Always => (),
                }
                String::from_str("EXPIRE")
            },
            Command::EXPIREAT { key, timestamp, option } => {
                push_arg(&mut args, key.clone());
                push_arg(&mut args, i64_text(*timestamp));
                match option {
                    ExpireAtOption::NX => push_arg(&mut args, String::from_str("NX")),
                    ExpireAtOption::XX => push_arg(&mut args, String::from_str("XX")),
                    ExpireAtOption::GT => push_arg(&mut args, String::from_str("GT")),
                    ExpireAtOption::LT => push_arg(&mut args, String::from_str("LT")),
                    ExpireAtOption::Always => (),
                }
                String::from_str("EXPIREAT")
            },
            Command::EXPIRETIME { key } => {
                push_arg(&mut args, key.clone());
                String::from_str("EXPIRETIME")
            },
            Command::FLUSHDB => String::from_str("FLUSHDB"),
            Command::GET { key } => {
                push_arg(&mut args, key.clone());
                String::from_str("GET")
            },
            Command::GETDEL { key } => {
                push_arg(&mut args, key.clone());
                String::from_str("GETDEL")
            },
            Command::GETEX { key, ex } => {
                push_arg(&mut args, key.clone());
                match ex {
                    GetexOption::EX(s) => {
                        push_arg(&mut args, String::from_str("EX"));
                        push_arg(&mut args, u64_text(*s));
                    },
                    GetexOption::PX(ms) => {
                        push_arg(&mut args, String::from_str("PX"));
                        push_arg(&mut args, u64_text(*ms));
                    },
                    GetexOption::EXAT(t) => {
                        push_arg(&mut args, String::from_str("EXAT"));
                        push_arg(&mut args, u64_text(*t));
                    },
                    GetexOption::PXAT(t) => {
                        push_arg(&mut args, String::from_str("PXAT"));
                        push_arg(&mut args, u64_text(*t));
                    },
                    GetexOption::PERSIST => {
                        push_arg(&mut args, String::from_str("PERSIST"));
                    },
                }
                String::from_str("GETEX")
            },
            Command::HSET { key, fields } => {
                push_arg(&mut args, key.clone());
                extend_pair_args(&mut args, fields);
                String::from_str("HSET")
            },
            Command::HGET { key, field } => {
                push_arg(&mut args, key.clone());
                push_arg(&mut args, field.clone());
                String::from_str("HGET")
            },
            Command::HGETALL { key } => {
                push_arg(&mut args, key.clone());
                String::from_str("HGETALL")
            },
            Command::GETWATCH { key } => {
                push_arg(&mut args, key.clone());
                String::from_str("GET.WATCH")
            },
            Command::HANDSHAKE { client_id, execution_mode } => {
                push_arg(&mut args, client_id.clone());
                push_arg(&mut args, execution_mode.as_arg());
                String::from_str("HANDSHAKE")
            },
            Command::INCR { key } => {
                push_arg(&mut args, key.clone());
                String::from_str("INCR")
            },
            Command::INCRBY { key, delta } => {
                push_arg(&mut args, key.clone());
                push_arg(&mut args, i64_text(*delta));
                String::from_str("INCRBY")
            },
            Command::PING => String::from_str("PING"),
            Command::SET { key, value, option, get } => {
                push_arg(&mut args, key.clone());
                push_arg(&mut args, value.as_arg());
                match option {
                    SetOption::EX(s) => {
                        push_arg(&mut args, String::from_str("EX"));
                        push_arg(&mut args, u64_text(*s));
                    },
                    SetOption::PX(ms) => {
                        push_arg(&mut args, String::from_str("PX"));
                        push_arg(&mut args, u64_text(*ms));
                    },
                    SetOption::EXAT(t) => {
                        push_arg(&mut args, String::from_str("EXAT"));
                        push_arg(&mut args, u64_text(*t));
                    },
                    SetOption::PXAT(t) => {
                        push_arg(&mut args, String::from_str("PXAT"));
                        push_arg(&mut args, u64_text(*t));
                    },
                    SetOption::XX => push_arg(&mut args, String::from_str("XX")),
                    SetOption::NX => push_arg(&mut args, String::from_str("NX")),
                    SetOption::KEEPTTL => push_arg(&mut args, String::from_str("KEEPTTL")),
                    SetOption::Plain => (),
                }
                if *get {
                    push_arg(&mut args, String::from_str("GET"));
                }
                String::from_str("SET")
            },
            Command::TTL { key } => {
                push_arg(&mut args, key.clone());
                String::from_str("TTL")
            },
            Command::TYPE { key } => {
                push_arg(&mut args, key.clone());
                String::from_str("TYPE")
            },
            Command::UNWATCH { key } => {
                push_arg(&mut args, key.clone());
                String::from_str("UNWATCH")
            },
        };
        proof {
            assert(strings_view(args@) =~= cmd_args(*self));
        }
        WireMessage { cmd, args }
    }
}

/// Flattens a DEL input into the owned key list it denotes.
pub fn del_keys(input: DelInput<'_>) -> (r: Vec<String>)
    ensures
        (match input {
            DelInput::Single(k) => strings_view(r@) == seq![k@],
            DelInput::Multiple(ks) => strings_view(r@) == ks@.map_values(|k: &str| k@),
        }),
{
    match input {
        DelInput::Single(k) => {
            let mut keys: Vec<String> = Vec::new();
            keys.push(String::from_str(k));
            proof {
                assert(strings_view(keys@) =~= seq![k@]);
            }
            keys
        },
        DelInput::Multiple(ks) => {
            let mut keys: Vec<String> = Vec::new();
            let n = ks.len();
            let mut i: usize = 0;
            while i < n
                invariant
                    i <= n,
                    n == ks@.len(),
                    keys@.len() == i,
                    forall|j: int| 0 <= j < i ==> #[trigger] keys@[j]@ == ks@[j]@,
                decreases n - i,
            {
                keys.push(String::from_str(ks[i]));
                i = i + 1;
            }
            proof {
                assert(strings_view(keys@) =~= ks@.map_values(|k: &str| k@));
            }
            keys
        },
    }
}

/// Flattens an HSET input into the owned field-value pair list it denotes.
pub fn hset_fields(input: HSetInput<'_>) -> (r: Vec<(String, String)>)
    ensures
        (match input {
            HSetInput::Single(f, v) => pairs_view(r@) == seq![(f@, v@)],
            HSetInput::Multiple(ps) => pairs_view(r@) == ps@.map_values(
                |p: (&str, &str)| (p.0@, p.1@),
            ),
        }),
{
    match input {
        HSetInput::Single(f, v) => {
            let mut fields: Vec<(String, String)> = Vec::new();
            fields.push((String::from_str(f), String::from_str(v)));
            proof {
                assert(pairs_view(fields@) =~= seq![(f@, v@)]);
            }
            fields
        },
        HSetInput::Multiple(ps) => {
            let mut fields: Vec<(String, String)> = Vec::new();
            let n = ps.len();
            let mut i: usize = 0;
            while i < n
                invariant
                    i <= n,
                    n == ps@.len(),
                    fields@.len() == i,
                    forall|j: int|
                        0 <= j < i ==> #[trigger] fields@[j].0@ == ps@[j].0@ && fields@[j].1@
                            == ps@[j].1@,
                decreases n - i,
            {
                fields.push((String::from_str(ps[i].0), String::from_str(ps[i].1)));
                i = i + 1;
            }
            proof {
                assert(pairs_view(fields@) =~= ps@.map_values(|p: (&str, &str)| (p.0@, p.1@)));
            }
            fields
        },
    }
}

impl<'a> From<&'a str> for DelInput<'a> {
    /// A single key.
    fn from(v: &'a str) -> (r: DelInput<'a>) {
        DelInput::Single(v)
    }
}

impl<'a> vstd::std_specs::convert::FromSpecImpl<&'a str> for DelInput<'a> {
    open spec fn obeys_from_spec() -> bool {
        true
    }

    open spec fn from_spec(v: &'a str) -> DelInput<'a> {
        DelInput::Single(v)
    }
}

impl<'a> From<Vec<&'a str>> for DelInput<'a> {
    /// A list of keys.
    fn from(v: Vec<&'a str>) -> (r: DelInput<'a>) {
        DelInput::Multiple(v)
    }
}

impl<'a> vstd::std_specs::convert::FromSpecImpl<Vec<&'a str>> for DelInput<'a> {
    open spec fn obeys_from_spec() -> bool {
        true
    }

    open spec fn from_spec(v: Vec<&'a str>) -> DelInput<'a> {
        DelInput::Multiple(v)
    }
}

impl<'a> From<(&'a str, &'a str)> for HSetInput<'a> {
    /// A single field-value pair.
    fn from(v: (&'a str, &'a str)) -> (r: HSetInput<'a>) {
        HSetInput::Single(v.0, v.1)
    }
}

impl<'a> vstd::std_specs::convert::FromSpecImpl<(&'a str, &'a str)> for HSetInput<'a> {
    open spec fn obeys_from_spec() -> bool {
        true
    }

    open spec fn from_spec(v: (&'a str, &'a str)) -> HSetInput<'a> {
        HSetInput::Single(v.0, v.1)
    }
}

impl<'a> From<Vec<(&'a str, &'a str)>> for HSetInput<'a> {
    /// A list of field-value pairs.
    fn from(v: Vec<(&'a str, &'a str)>) -> (r: HSetInput<'a>) {
        HSetInput::Multiple(v)
    }
}

impl<'a> vstd::std_specs::convert::FromSpecImpl<Vec<(&'a str, &'a str)>> for HSetInput<'a> {
    open spec fn obeys_from_spec() -> bool {
        true
    }

    open spec fn from_spec(v: Vec<(&'a str, &'a str)>) -> HSetInput<'a> {
        HSetInput::Multiple(v)
    }
}

} // verus!
