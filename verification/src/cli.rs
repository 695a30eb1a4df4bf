//! Command-line model: the arguments the program accepts, and the `key=val,...` descriptor
//! mini-language of `--module` and `--ocpp`, resolved into module instances together with the
//! instances of session files (which the application reads).
use vstd::prelude::*;

use crate::config::{
    Endpoint, EndpointView, ModuleSpec, ModuleSpecView, OcppModuleSpec, OcppModuleSpecView,
    OcppProtocol, Role,
};
use crate::num::{decimal, parse_u16, parse_u32, parse_u8, parse_unsigned, push_decimal};
use crate::text::{
    append, chars_of, concat3, first_index, is, is_char, lemma_first_index_bound, lemma_split_char_len, seqs, split_char, split_char_vec, split_once_by,
    split_once_char, string_of, trim, trim_chars,
};

verus! {

/// Top-level arguments.
#[derive(Debug)]
pub struct CliArgs {
    pub command: Option<SubCommand>,
    /// `--module KEY=VAL,...` descriptors.
    pub modules: Vec<String>,
    /// `--session FILE` paths.
    pub sessions: Vec<String>,
    /// `--device FILE` paths.
    pub devices: Vec<String>,
    /// Demo mode.
    pub demo: bool,
}

/// Subcommands replacing the default (interactive) action.
#[derive(Debug)]
pub enum SubCommand {
    /// Migrate a legacy configuration file to the current device config format.
    Migrate(MigrateArgs),
    /// Run configured modules without the interactive interface.
    Run(RunArgs),
    /// Relay Modbus requests between an upstream and a downstream interface.
    Bridge(BridgeArgs),
}

#[derive(Debug)]
pub struct BridgeArgs {
    pub upstream: Option<String>,
    pub downstream: Option<String>,
    pub duration: Option<u64>,
    pub log_file: Option<String>,
    pub exit_on_error: bool,
}

#[derive(Debug)]
pub struct MigrateArgs {
    pub input: String,
    pub output: String,
}

#[derive(Debug)]
pub struct RunArgs {
    pub sessions: Vec<String>,
    pub modules: Vec<String>,
    pub ocpp: Vec<String>,
    pub duration: Option<u64>,
    pub log_file: Option<String>,
    pub exit_on_error: bool,
}

// ---------------------------------------------------------------------------------------------
// The descriptor mini-language: comma-separated `key=value` parts; blank parts are skipped,
// keys and values are trimmed, and a later key overrides an earlier one.
// ---------------------------------------------------------------------------------------------

/// The `(key, value)` pairs of a descriptor whose comma-separated parts are `parts`, or the
/// error for the first part that is not `key=value`.
pub open spec fn spec_pairs_of(parts: Seq<Seq<char>>) -> Result<Seq<(Seq<char>, Seq<char>)>, Seq<char>>
    decreases parts.len(),
{
    if parts.len() == 0 {
        Ok(Seq::<(Seq<char>, Seq<char>)>::empty())
    } else {
        match spec_pairs_of(parts.drop_last()) {
            Err(e) => Err(e),
            Ok(acc) => {
                let t = trim(parts.last());
                if t.len() == 0 {
                    Ok(acc)
                } else {
                    match split_once_by(t, is_char('=')) {
                        None => Err("expected key=value, got '"@ + t + "'"@),
                        Some((k, v)) => Ok(acc.push((trim(k), trim(v)))),
                    }
                }
            },
        }
    }
}

/// The `(key, value)` pairs of descriptor `s`.
pub open spec fn spec_pairs(s: Seq<char>) -> Result<Seq<(Seq<char>, Seq<char>)>, Seq<char>> {
    spec_pairs_of(split_char(s, ','))
}

/// The value the last pair with key `k` carries.
pub open spec fn lookup(m: Seq<(Seq<char>, Seq<char>)>, k: Seq<char>) -> Option<Seq<char>>
    decreases m.len(),
{
    if m.len() == 0 {
        None
    } else if m.last().0 == k {
        Some(m.last().1)
    } else {
        lookup(m.drop_last(), k)
    }
}

/// The pairs held by a list of character-vector pairs.
pub open spec fn pair_seqs(v: Seq<(Vec<char>, Vec<char>)>) -> Seq<(Seq<char>, Seq<char>)> {
    v.map_values(|p: (Vec<char>, Vec<char>)| (p.0@, p.1@))
}

/// A descriptor's `key=value` pairs, in order.
pub fn descriptor_pairs(input: &str) -> (r: Result<Vec<(Vec<char>, Vec<char>)>, String>)
    ensures
        match r {
            Ok(m) => spec_pairs(input@) == Ok::<_, Seq<char>>(pair_seqs(m@)),
            Err(e) => spec_pairs(input@) == Err::<Seq<(Seq<char>, Seq<char>)>, _>(e@),
        },
{
    let v = chars_of(input);
    let parts = split_char_vec(&v, ',');
    let mut m: Vec<(Vec<char>, Vec<char>)> = Vec::new();
    let mut i: usize = 0;
    assert(seqs(parts@).take(0) =~= Seq::<Seq<char>>::empty());
    assert(pair_seqs(m@) =~= Seq::<(Seq<char>, Seq<char>)>::empty());
    while i < parts.len()
        invariant
            i <= parts@.len(),
            v@ == input@,
            seqs(parts@) == split_char(v@, ','),
            spec_pairs_of(seqs(parts@).take(i as int)) == Ok::<_, Seq<char>>(pair_seqs(m@)),
        decreases parts.len() - i,
    {
        let ghost pre = seqs(parts@).take(i as int);
        let ghost nxt = seqs(parts@).take(i + 1);
        assert(nxt.drop_last() =~= pre);
        assert(nxt.last() == parts@[i as int]@);
        let t = trim_chars(&parts[i]);
        if t.len() > 0 {
            match split_once_char(&t, '=') {
                None => {
                    let mut msg = chars_of("expected key=value, got '");
                    append(&mut msg, &t);
                    let tail = chars_of("'");
                    append(&mut msg, &tail);
                    proof {
                        assert(spec_pairs_of(nxt) == Err::<Seq<(Seq<char>, Seq<char>)>, _>(
                            msg@,
                        ));
                        lemma_pairs_error_persists(seqs(parts@), i as int + 1);
                        assert(seqs(parts@).take(parts@.len() as int) =~= seqs(parts@));
                    }
                    return Err(string_of(&msg));
                },
                Some((k, val)) => {
                    let ghost m0 = pair_seqs(m@);
                    let kt = trim_chars(&k);
                    let vt = trim_chars(&val);
                    let ghost kv = (kt@, vt@);
                    m.push((kt, vt));
                    assert(pair_seqs(m@) =~= m0.push(kv));
                },
            }
        }
        i += 1;
    }
    assert(seqs(parts@).take(i as int) =~= seqs(parts@));
    Ok(m)
}

/// Once the pairs of a prefix of the parts are an error, so are those of all of them.
pub proof fn lemma_pairs_error_persists(parts: Seq<Seq<char>>, k: int)
    requires
        0 <= k <= parts.len(),
        spec_pairs_of(parts.take(k)) is Err,
    ensures
        spec_pairs_of(parts.take(parts.len() as int)) == spec_pairs_of(parts.take(k)),
    decreases parts.len() - k,
{
    if k < parts.len() {
        let nxt = parts.take(k + 1);
        assert(nxt.drop_last() =~= parts.take(k));
        lemma_pairs_error_persists(parts, k + 1);
    }
}

/// The value of the last pair with key `key`.
pub fn get(m: &Vec<(Vec<char>, Vec<char>)>, key: &str) -> (r: Option<Vec<char>>)
    ensures
        match r {
            Some(v) => lookup(pair_seqs(m@), key@) == Some(v@),
            None => lookup(pair_seqs(m@), key@) is None,
        },
{
    let k = chars_of(key);
    let mut i = m.len();
    assert(pair_seqs(m@).take(i as int) =~= pair_seqs(m@));
    while i > 0
        invariant
            i <= m@.len(),
            k@ == key@,
            lookup(pair_seqs(m@), key@) == lookup(pair_seqs(m@).take(i as int), key@),
        decreases i,
    {
        let ghost pre = pair_seqs(m@).take(i as int);
        assert(pre.last() == (m@[i - 1].0@, m@[i - 1].1@));
        assert(pre.drop_last() =~= pair_seqs(m@).take(i - 1));
        if crate::text::same(&m[i - 1].0, &k) {
            let v = crate::text::slice(&m[i - 1].1, 0, m[i - 1].1.len());
            assert(v@ =~= m@[i - 1].1@);
            return Some(v);
        }
        i -= 1;
    }
    None
}

/// `value` parsed as an unsigned number of at most `max`, when present, or the error naming
/// `field`.
pub open spec fn spec_parse_opt(value: Option<Seq<char>>, field: Seq<char>, max: int) -> Result<
    Option<int>,
    Seq<char>,
> {
    match value {
        None => Ok(None),
        Some(v) => match parse_unsigned(v, 10, max) {
            Some(x) => Ok(Some(x)),
            None => Err("invalid '"@ + field + "'"@),
        },
    }
}

pub(crate) fn invalid_field(field: &str) -> (r: String)
    ensures
        r@ == "invalid '"@ + field@ + "'"@,
{
    let mut msg = chars_of("invalid '");
    let f = chars_of(field);
    append(&mut msg, &f);
    let tail = chars_of("'");
    append(&mut msg, &tail);
    string_of(&msg)
}

pub(crate) fn parse_opt_u8(value: Option<Vec<char>>, field: &str) -> (r: Result<Option<u8>, String>)
    ensures
        match r {
            Ok(o) => spec_parse_opt(
                match value {
                    Some(v) => Some(v@),
                    None => None,
                },
                field@,
                u8::MAX as int,
            ) == Ok::<_, Seq<char>>(
                match o {
                    Some(x) => Some(x as int),
                    None => None,
                },
            ),
            Err(e) => spec_parse_opt(
                match value {
                    Some(v) => Some(v@),
                    None => None,
                },
                field@,
                u8::MAX as int,
            ) == Err::<Option<int>, _>(e@),
        },
{
    match value {
        None => Ok(None),
        Some(v) => match parse_u8(&v) {
            Some(x) => Ok(Some(x)),
            None => Err(invalid_field(field)),
        },
    }
}

pub(crate) fn parse_opt_u32(value: Option<Vec<char>>, field: &str) -> (r: Result<Option<u32>, String>)
    ensures
        match r {
            Ok(o) => spec_parse_opt(
                match value {
                    Some(v) => Some(v@),
                    None => None,
                },
                field@,
                u32::MAX as int,
            ) == Ok::<_, Seq<char>>(
                match o {
                    Some(x) => Some(x as int),
                    None => None,
                },
            ),
            Err(e) => spec_parse_opt(
                match value {
                    Some(v) => Some(v@),
                    None => None,
                },
                field@,
                u32::MAX as int,
            ) == Err::<Option<int>, _>(e@),
        },
{
    match value {
        None => Ok(None),
        Some(v) => match parse_u32(&v) {
            Some(x) => Ok(Some(x)),
            None => Err(invalid_field(field)),
        },
    }
}

/// The network address of a descriptor: `ip` (default `127.0.0.1`) and a required `port`.
pub open spec fn spec_net(m: Seq<(Seq<char>, Seq<char>)>, label: Seq<char>) -> Result<
    (Seq<char>, u16),
    Seq<char>,
> {
    let ip = match lookup(m, "ip"@) {
        Some(i) => i,
        None => "127.0.0.1"@,
    };
    match lookup(m, "port"@) {
        None => Err(label + " module requires 'port'"@),
        Some(p) => match parse_unsigned(p, 10, u16::MAX as int) {
            Some(x) => Ok((ip, x as u16)),
            None => Err("invalid 'port'"@),
        },
    }
}

/// The serial line of a descriptor: a required `path`, `baud` (or `baud_rate`, default
/// 19200), `parity`, `data_bits` and `stop_bits`.
pub open spec fn spec_serial(m: Seq<(Seq<char>, Seq<char>)>, label: Seq<char>) -> Result<
    (Seq<char>, u32, Option<Seq<char>>, Option<u8>, Option<u8>),
    Seq<char>,
> {
    match lookup(m, "path"@) {
        None => Err(label + " module requires 'path'"@),
        Some(path) => {
            let baud_src = match lookup(m, "baud"@) {
                Some(b) => Some(b),
                None => lookup(m, "baud_rate"@),
            };
            match spec_parse_opt(baud_src, "baud"@, u32::MAX as int) {
                Err(e) => Err(e),
                Ok(baud) => match spec_parse_opt(
                    lookup(m, "data_bits"@),
                    "data_bits"@,
                    u8::MAX as int,
                ) {
                    Err(e) => Err(e),
                    Ok(data_bits) => match spec_parse_opt(
                        lookup(m, "stop_bits"@),
                        "stop_bits"@,
                        u8::MAX as int,
                    ) {
                        Err(e) => Err(e),
                        Ok(stop_bits) => Ok(
                            (
                                path,
                                match baud {
                                    Some(b) => b as u32,
                                    None => 19200u32,
                                },
                                lookup(m, "parity"@),
                                match data_bits {
                                    Some(d) => Some(d as u8),
                                    None => None,
                                },
                                match stop_bits {
                                    Some(s) => Some(s as u8),
                                    None => None,
                                },
                            ),
                        ),
                    },
                },
            }
        },
    }
}

/// The endpoint a descriptor with transport `t` names.
pub open spec fn spec_endpoint(m: Seq<(Seq<char>, Seq<char>)>, t: Seq<char>) -> Result<
    EndpointView,
    Seq<char>,
> {
    if t == "tcp"@ {
        match spec_net(m, t) {
            Ok((ip, port)) => Ok(EndpointView::Tcp { ip, port }),
            Err(e) => Err(e),
        }
    } else if t == "rtu_over_tcp"@ {
        match spec_net(m, t) {
            Ok((ip, port)) => Ok(EndpointView::RtuOverTcp { ip, port }),
            Err(e) => Err(e),
        }
    } else if t == "rtu"@ {
        match spec_serial(m, t) {
            Ok((path, baud_rate, parity, data_bits, stop_bits)) => Ok(
                EndpointView::Rtu { path, baud_rate, parity, data_bits, stop_bits },
            ),
            Err(e) => Err(e),
        }
    } else if t == "udp"@ {
        match spec_net(m, t) {
            Ok((ip, port)) => Ok(EndpointView::Udp { ip, port }),
            Err(e) => Err(e),
        }
    } else if t == "ascii"@ {
        match spec_serial(m, t) {
            Ok((path, baud_rate, parity, data_bits, stop_bits)) => Ok(
                EndpointView::Ascii { path, baud_rate, parity, data_bits, stop_bits },
            ),
            Err(e) => Err(e),
        }
    } else if t == "ascii_over_tcp"@ {
        match spec_net(m, t) {
            Ok((ip, port)) => Ok(EndpointView::AsciiOverTcp { ip, port }),
            Err(e) => Err(e),
        }
    } else {
        Err(
            "invalid transport '"@ + t
                + "' (expected tcp|rtu|rtu_over_tcp|udp|ascii|ascii_over_tcp)"@,
        )
    }
}

/// The module instance a `--module` descriptor describes, or the error message.
pub open spec fn spec_parse_module_spec(s: Seq<char>) -> Result<ModuleSpecView, Seq<char>> {
    match spec_pairs(s) {
        Err(e) => Err(e),
        Ok(m) => match lookup(m, "name"@) {
            None => Err("module requires 'name'"@),
            Some(name) => {
                let device = match lookup(m, "device"@) {
                    Some(d) => Some(d),
                    None => lookup(m, "type"@),
                };
                match device {
                    None => Err("module requires 'device' (or 'type')"@),
                    Some(device) => {
                        let role = lookup(m, "role"@);
                        if role is Some && role != Some("server"@) && role != Some("client"@) {
                            Err("invalid role '"@ + role.unwrap() + "' (expected client|server)"@)
                        } else {
                            let role = if role == Some("client"@) {
                                Role::Client
                            } else {
                                Role::Server
                            };
                            let t = match lookup(m, "transport"@) {
                                Some(t) => t,
                                None => "tcp"@,
                            };
                            match spec_endpoint(m, t) {
                                Err(e) => Err(e),
                                Ok(endpoint) => Ok(
                                    ModuleSpecView {
                                        name,
                                        device,
                                        role,
                                        endpoint,
                                        timeout_ms: None,
                                        delay_ms: None,
                                        interval_ms: None,
                                    },
                                ),
                            }
                        }
                    },
                }
            },
        },
    }
}

/// `label` + `suffix` as a string.
pub(crate) fn labelled(label: &[char], suffix: &str) -> (r: String)
    ensures
        r@ == label@ + suffix@,
{
    let mut msg = crate::text::slice(label, 0, label.len());
    let s = chars_of(suffix);
    append(&mut msg, &s);
    assert(label@.subrange(0, label@.len() as int) =~= label@);
    string_of(&msg)
}

fn parse_net(m: &Vec<(Vec<char>, Vec<char>)>, label: &[char]) -> (r: Result<(String, u16), String>)
    ensures
        match r {
            Ok((ip, port)) => spec_net(pair_seqs(m@), label@) == Ok::<_, Seq<char>>(
                (ip@, port),
            ),
            Err(e) => spec_net(pair_seqs(m@), label@) == Err::<(Seq<char>, u16), _>(e@),
        },
{
    let ip = match get(m, "ip") {
        Some(i) => string_of(&i),
        None => string_of(&chars_of("127.0.0.1")),
    };
    match get(m, "port") {
        None => Err(labelled(label, " module requires 'port'")),
        Some(p) => match parse_u16(&p) {
            Some(x) => Ok((ip, x)),
            None => Err(string_of(&chars_of("invalid 'port'"))),
        },
    }
}

fn parse_serial(m: &Vec<(Vec<char>, Vec<char>)>, label: &[char]) -> (r: Result<
    (String, u32, Option<String>, Option<u8>, Option<u8>),
    String,
>)
    ensures
        match r {
            Ok((path, baud, parity, data_bits, stop_bits)) => spec_serial(pair_seqs(m@), label@)
                == Ok::<_, Seq<char>>(
                (path@, baud, crate::command::opt_view(parity), data_bits, stop_bits),
            ),
            Err(e) => spec_serial(pair_seqs(m@), label@) == Err::<
                (Seq<char>, u32, Option<Seq<char>>, Option<u8>, Option<u8>),
                _,
            >(e@),
        },
{
    let path = match get(m, "path") {
        None => return Err(labelled(label, " module requires 'path'")),
        Some(p) => string_of(&p),
    };
    let baud_src = match get(m, "baud") {
        Some(b) => Some(b),
        None => get(m, "baud_rate"),
    };
    let baud = match parse_opt_u32(baud_src, "baud") {
        Ok(b) => b,
        Err(e) => return Err(e),
    };
    let data_bits = match parse_opt_u8(get(m, "data_bits"), "data_bits") {
        Ok(d) => d,
        Err(e) => return Err(e),
    };
    let stop_bits = match parse_opt_u8(get(m, "stop_bits"), "stop_bits") {
        Ok(s) => s,
        Err(e) => return Err(e),
    };
    let parity = match get(m, "parity") {
        Some(p) => Some(string_of(&p)),
        None => None,
    };
    let baud_rate = match baud {
        Some(b) => b,
        None => 19200,
    };
    Ok((path, baud_rate, parity, data_bits, stop_bits))
}

fn parse_endpoint(m: &Vec<(Vec<char>, Vec<char>)>, t: &Vec<char>) -> (r: Result<Endpoint, String>)
    ensures
        match r {
            Ok(e) => spec_endpoint(pair_seqs(m@), t@) == Ok::<_, Seq<char>>(e@),
            Err(e) => spec_endpoint(pair_seqs(m@), t@) == Err::<EndpointView, _>(e@),
        },
{
    if is(t, "tcp") {
        match parse_net(m, t) {
            Ok((ip, port)) => Ok(Endpoint::Tcp { ip, port }),
            Err(e) => Err(e),
        }
    } else if is(t, "rtu_over_tcp") {
        match parse_net(m, t) {
            Ok((ip, port)) => Ok(Endpoint::RtuOverTcp { ip, port }),
            Err(e) => Err(e),
        }
    } else if is(t, "rtu") {
        match parse_serial(m, t) {
            Ok((path, baud_rate, parity, data_bits, stop_bits)) => Ok(
                Endpoint::Rtu { path, baud_rate, parity, data_bits, stop_bits },
            ),
            Err(e) => Err(e),
        }
    } else if is(t, "udp") {
        match parse_net(m, t) {
            Ok((ip, port)) => Ok(Endpoint::Udp { ip, port }),
            Err(e) => Err(e),
        }
    } else if is(t, "ascii") {
        match parse_serial(m, t) {
            Ok((path, baud_rate, parity, data_bits, stop_bits)) => Ok(
                Endpoint::Ascii { path, baud_rate, parity, data_bits, stop_bits },
            ),
            Err(e) => Err(e),
        }
    } else if is(t, "ascii_over_tcp") {
        match parse_net(m, t) {
            Ok((ip, port)) => Ok(Endpoint::AsciiOverTcp { ip, port }),
            Err(e) => Err(e),
        }
    } else {
        let mut msg = chars_of("invalid transport '");
        append(&mut msg, t);
        let tail = chars_of("' (expected tcp|rtu|rtu_over_tcp|udp|ascii|ascii_over_tcp)");
        append(&mut msg, &tail);
        Err(string_of(&msg))
    }
}

/// Parse a single `--module` value (`key=val,key=val,...`) into a module instance.
pub fn parse_module_spec(input: &str) -> (r: Result<ModuleSpec, String>)
    ensures
        match r {
            Ok(s) => spec_parse_module_spec(input@) == Ok::<_, Seq<char>>(s@),
            Err(e) => spec_parse_module_spec(input@) == Err::<ModuleSpecView, _>(e@),
        },
{
    let m = match descriptor_pairs(input) {
        Ok(m) => m,
        Err(e) => return Err(e),
    };
    let name = match get(&m, "name") {
        Some(n) => string_of(&n),
        None => return Err(string_of(&chars_of("module requires 'name'"))),
    };
    let device_src = match get(&m, "device") {
        Some(d) => Some(d),
        None => get(&m, "type"),
    };
    let device = match device_src {
        Some(d) => string_of(&d),
        None => return Err(string_of(&chars_of("module requires 'device' (or 'type')"))),
    };
    let role = match get(&m, "role") {
        None => Role::Server,
        Some(r) => {
            if is(&r, "server") {
                Role::Server
            } else if is(&r, "client") {
                Role::Client
            } else {
                let mut msg = chars_of("invalid role '");
                append(&mut msg, &r);
                let tail = chars_of("' (expected client|server)");
                append(&mut msg, &tail);
                proof {
                    reveal_strlit("server");
                    reveal_strlit("client");
                }
                return Err(string_of(&msg));
            }
        },
    };
    proof {
        reveal_strlit("server");
        reveal_strlit("client");
        assert("server"@ != "client"@) by {
            assert("server"@[0] != "client"@[0]);
        }
    }
    let t = match get(&m, "transport") {
        Some(t) => t,
        None => chars_of("tcp"),
    };
    let endpoint = match parse_endpoint(&m, &t) {
        Ok(e) => e,
        Err(e) => return Err(e),
    };
    Ok(
        ModuleSpec {
            name,
            device,
            role,
            endpoint,
            timeout_ms: None,
            delay_ms: None,
            interval_ms: None,
        },
    )
}

/// The OCPP module instance a `--ocpp` descriptor describes, or the error message.
pub open spec fn spec_parse_ocpp_spec(s: Seq<char>) -> Result<OcppModuleSpecView, Seq<char>> {
    match spec_pairs(s) {
        Err(e) => Err(e),
        Ok(m) => match lookup(m, "name"@) {
            None => Err("ocpp module requires 'name'"@),
            Some(name) => match lookup(m, "device"@) {
                None => Err("ocpp module requires 'device'"@),
                Some(device) => {
                    let ip = match lookup(m, "ip"@) {
                        Some(i) => i,
                        None => "127.0.0.1"@,
                    };
                    match lookup(m, "port"@) {
                        None => Err("ocpp module requires 'port'"@),
                        Some(p) => match parse_unsigned(p, 10, u16::MAX as int) {
                            None => Err("invalid 'port'"@),
                            Some(port) => {
                                let path = match lookup(m, "path"@) {
                                    Some(p) => p,
                                    None => Seq::<char>::empty(),
                                };
                                let protocol = lookup(m, "protocol"@);
                                if protocol is Some && protocol != Some("ws"@) && protocol
                                    != Some("wss"@) {
                                    Err(
                                        "invalid protocol '"@ + protocol.unwrap()
                                            + "' (expected ws|wss)"@,
                                    )
                                } else {
                                    Ok(
                                        OcppModuleSpecView {
                                            name,
                                            device,
                                            protocol: if protocol == Some("wss"@) {
                                                OcppProtocol::Wss
                                            } else {
                                                OcppProtocol::Ws
                                            },
                                            ip,
                                            port: port as u16,
                                            path,
                                        },
                                    )
                                }
                            },
                        },
                    }
                },
            },
        },
    }
}

/// The transports reached over the network.
pub open spec fn net_transport(t: Seq<char>) -> bool {
    t == "tcp"@ || t == "rtu_over_tcp"@ || t == "udp"@ || t == "ascii_over_tcp"@
}

/// The transports over a serial line.
pub open spec fn serial_transport(t: Seq<char>) -> bool {
    t == "rtu"@ || t == "ascii"@
}

/// A present value that is not an unsigned number of at most `max`.
pub open spec fn bad_number(v: Option<Seq<char>>, max: int) -> bool {
    v is Some && parse_unsigned(v.unwrap(), 10, max) is None
}

/// Why a `--module` descriptor is refused, as conditions: a non-blank part without `=`, no
/// name, neither device nor type, a role other than server or client, an unknown transport
/// (`tcp` when absent), a network transport without a valid port, or a serial transport
/// without a path or with a baud rate, data bits or stop bits that are not numbers in range.
pub open spec fn module_spec_refused(s: Seq<char>) -> bool {
    match spec_pairs(s) {
        Err(_) => true,
        Ok(m) => {
            let t = match lookup(m, "transport"@) {
                Some(t) => t,
                None => "tcp"@,
            };
            let baud = match lookup(m, "baud"@) {
                Some(b) => Some(b),
                None => lookup(m, "baud_rate"@),
            };
            ||| lookup(m, "name"@) is None
            ||| (lookup(m, "device"@) is None && lookup(m, "type"@) is None)
            ||| (lookup(m, "role"@) is Some && lookup(m, "role"@) != Some("server"@) && lookup(
                m,
                "role"@,
            ) != Some("client"@))
            ||| (!net_transport(t) && !serial_transport(t))
            ||| (net_transport(t) && (lookup(m, "port"@) is None || bad_number(
                lookup(m, "port"@),
                u16::MAX as int,
            )))
            ||| (serial_transport(t) && (lookup(m, "path"@) is None || bad_number(
                baud,
                u32::MAX as int,
            ) || bad_number(lookup(m, "data_bits"@), u8::MAX as int) || bad_number(
                lookup(m, "stop_bits"@),
                u8::MAX as int,
            )))
        },
    }
}

/// A `--module` descriptor is refused exactly when one of the conditions of
/// `module_spec_refused` holds.
pub proof fn lemma_module_spec_errors(s: Seq<char>)
    ensures
        spec_parse_module_spec(s) is Err <==> module_spec_refused(s),
{
    reveal_strlit("server");
    reveal_strlit("client");
    if let Ok(m) = spec_pairs(s) {
        let t = match lookup(m, "transport"@) {
            Some(t) => t,
            None => "tcp"@,
        };
        lemma_endpoint_errors(m, t);
    }
}

proof fn lemma_endpoint_errors(m: Seq<(Seq<char>, Seq<char>)>, t: Seq<char>)
    ensures
        spec_endpoint(m, t) is Err <==> ({
            let baud = match lookup(m, "baud"@) {
                Some(b) => Some(b),
                None => lookup(m, "baud_rate"@),
            };
            ||| (!net_transport(t) && !serial_transport(t))
            ||| (net_transport(t) && (lookup(m, "port"@) is None || bad_number(
                lookup(m, "port"@),
                u16::MAX as int,
            )))
            ||| (serial_transport(t) && (lookup(m, "path"@) is None || bad_number(
                baud,
                u32::MAX as int,
            ) || bad_number(lookup(m, "data_bits"@), u8::MAX as int) || bad_number(
                lookup(m, "stop_bits"@),
                u8::MAX as int,
            )))
        }),
{
    reveal_strlit("tcp");
    reveal_strlit("rtu_over_tcp");
    reveal_strlit("rtu");
    reveal_strlit("udp");
    reveal_strlit("ascii");
    reveal_strlit("ascii_over_tcp");
    assert("tcp"@.len() == 3 && "tcp"@[0] == 't');
    assert("rtu"@.len() == 3 && "rtu"@[0] == 'r');
    assert("udp"@.len() == 3 && "udp"@[0] == 'u');
    assert("ascii"@.len() == 5);
    assert("rtu_over_tcp"@.len() == 12);
    assert("ascii_over_tcp"@.len() == 14);
    assert(!(net_transport(t) && serial_transport(t)));
    if net_transport(t) {
        assert(spec_endpoint(m, t) is Err <==> spec_net(m, t) is Err);
    } else if serial_transport(t) {
        assert(spec_endpoint(m, t) is Err <==> spec_serial(m, t) is Err);
    }
}

/// The address of a network endpoint, or `None` for a serial one.
pub open spec fn endpoint_address(e: EndpointView) -> Option<(Seq<char>, u16)> {
    match e {
        EndpointView::Tcp { ip, port } => Some((ip, port)),
        EndpointView::RtuOverTcp { ip, port } => Some((ip, port)),
        EndpointView::Udp { ip, port } => Some((ip, port)),
        EndpointView::AsciiOverTcp { ip, port } => Some((ip, port)),
        _ => None,
    }
}

/// The transport a descriptor's pairs ask for: `transport`, or `tcp` when absent.
pub open spec fn transport_of(m: Seq<(Seq<char>, Seq<char>)>) -> Seq<char> {
    match lookup(m, "transport"@) {
        Some(t) => t,
        None => "tcp"@,
    }
}

/// What a parsed `--module` descriptor holds: the `name` it gives; its `device` (or, without
/// one, its `type`); the client role exactly when it says `role=client`; the endpoint kind of
/// its transport, each transport its own kind (`tcp` when none is given); and for a network
/// transport the `ip` it gives (`127.0.0.1` without one) and the `port` it gives.
pub proof fn lemma_module_spec_fields(s: Seq<char>)
    requires
        spec_parse_module_spec(s) is Ok,
    ensures
        spec_pairs(s) is Ok,
        ({
            let m = spec_pairs(s)->Ok_0;
            let v = spec_parse_module_spec(s)->Ok_0;
            let t = transport_of(m);
            &&& Some(v.name) == lookup(m, "name"@)
            &&& Some(v.device) == (if lookup(m, "device"@) is Some {
                lookup(m, "device"@)
            } else {
                lookup(m, "type"@)
            })
            &&& (v.role == Role::Client) <==> lookup(m, "role"@) == Some("client"@)
            &&& (v.endpoint is Tcp) <==> t == "tcp"@
            &&& (v.endpoint is Udp) <==> t == "udp"@
            &&& (v.endpoint is RtuOverTcp) <==> t == "rtu_over_tcp"@
            &&& (v.endpoint is AsciiOverTcp) <==> t == "ascii_over_tcp"@
            &&& (v.endpoint is Rtu) <==> t == "rtu"@
            &&& (v.endpoint is Ascii) <==> t == "ascii"@
            &&& match endpoint_address(v.endpoint) {
                Some((ip, port)) => {
                    &&& ip == (if lookup(m, "ip"@) is Some {
                        lookup(m, "ip"@)->0
                    } else {
                        "127.0.0.1"@
                    })
                    &&& parse_unsigned(lookup(m, "port"@)->0, 10, u16::MAX as int) == Some(
                        port as int,
                    )
                },
                None => true,
            }
        }),
{
    reveal_strlit("server");
    reveal_strlit("client");
    reveal_strlit("tcp");
    reveal_strlit("rtu_over_tcp");
    reveal_strlit("rtu");
    reveal_strlit("udp");
    reveal_strlit("ascii");
    reveal_strlit("ascii_over_tcp");
    assert("server"@[0] != "client"@[0]);
    assert("tcp"@.len() == 3 && "tcp"@[0] == 't');
    assert("rtu"@.len() == 3 && "rtu"@[0] == 'r');
    assert("udp"@.len() == 3 && "udp"@[0] == 'u');
    assert("ascii"@.len() == 5);
    assert("rtu_over_tcp"@.len() == 12);
    assert("ascii_over_tcp"@.len() == 14);
    let m = spec_pairs(s)->Ok_0;
    let v = spec_parse_module_spec(s)->Ok_0;
    let t = transport_of(m);
    assert(spec_endpoint(m, t) == Ok::<_, Seq<char>>(v.endpoint));
    if t == "tcp"@ || t == "udp"@ || t == "rtu_over_tcp"@ || t == "ascii_over_tcp"@ {
        assert(spec_net(m, t) is Ok);
        let (ip, port) = spec_net(m, t)->Ok_0;
        assert(endpoint_address(v.endpoint) == Some((ip, port)));
        let x = parse_unsigned(lookup(m, "port"@)->0, 10, u16::MAX as int);
        assert(x is Some);
        let body = crate::num::unsigned_body(lookup(m, "port"@)->0);
        crate::num::lemma_digits_value_nonneg(body, 10);
        assert(0 <= x->0 <= u16::MAX);
    } else {
        assert(endpoint_address(v.endpoint) is None);
    }
}

/// What a parsed `--ocpp` descriptor holds: the `name`, `device` and `path` it gives (an
/// empty path without one), the `ip` it gives (`127.0.0.1` without one), the `port` it gives,
/// and the secure protocol exactly when it says `protocol=wss`.
pub proof fn lemma_ocpp_spec_fields(s: Seq<char>)
    requires
        spec_parse_ocpp_spec(s) is Ok,
    ensures
        spec_pairs(s) is Ok,
        ({
            let m = spec_pairs(s)->Ok_0;
            let v = spec_parse_ocpp_spec(s)->Ok_0;
            &&& Some(v.name) == lookup(m, "name"@)
            &&& Some(v.device) == lookup(m, "device"@)
            &&& v.path == (if lookup(m, "path"@) is Some {
                lookup(m, "path"@)->0
            } else {
                Seq::<char>::empty()
            })
            &&& v.ip == (if lookup(m, "ip"@) is Some {
                lookup(m, "ip"@)->0
            } else {
                "127.0.0.1"@
            })
            &&& parse_unsigned(lookup(m, "port"@)->0, 10, u16::MAX as int) == Some(v.port as int)
            &&& (v.protocol == OcppProtocol::Wss) <==> lookup(m, "protocol"@) == Some("wss"@)
        }),
{
    let m = spec_pairs(s)->Ok_0;
    crate::num::lemma_digits_value_nonneg(crate::num::unsigned_body(lookup(m, "port"@)->0), 10);
}

/// Why a `--ocpp` descriptor is refused: a non-blank part without `=`, no name, no device, no
/// valid port, or a protocol other than `ws` or `wss`.
pub open spec fn ocpp_spec_refused(s: Seq<char>) -> bool {
    match spec_pairs(s) {
        Err(_) => true,
        Ok(m) => {
            ||| lookup(m, "name"@) is None
            ||| lookup(m, "device"@) is None
            ||| lookup(m, "port"@) is None
            ||| bad_number(lookup(m, "port"@), u16::MAX as int)
            ||| (lookup(m, "protocol"@) is Some && lookup(m, "protocol"@) != Some("ws"@) && lookup(
                m,
                "protocol"@,
            ) != Some("wss"@))
        },
    }
}

/// A `--ocpp` descriptor is refused exactly when one of the conditions of `ocpp_spec_refused`
/// holds.
pub proof fn lemma_ocpp_spec_errors(s: Seq<char>)
    ensures
        spec_parse_ocpp_spec(s) is Err <==> ocpp_spec_refused(s),
{
}

/// Splitting `s`, a separator and a piece without separators gives the pieces of `s` and then
/// that piece.
pub proof fn lemma_split_char_append(s: Seq<char>, c: char, x: Seq<char>)
    requires
        !x.contains(c),
    ensures
        split_char(s + seq![c] + x, c) == split_char(s, c).push(x),
    decreases x.len(),
{
    if x.len() == 0 {
        let w = s + seq![c] + x;
        assert(w =~= s.push(c));
        assert(w.drop_last() =~= s);
        assert(w.last() == c);
        assert(split_char(w, c) == split_char(w.drop_last(), c).push(Seq::<char>::empty()));
        assert(x =~= Seq::<char>::empty());
    } else {
        let x0 = x.drop_last();
        assert(!x0.contains(c)) by {
            assert forall|i: int| 0 <= i < x0.len() implies x0[i] != c by {
                assert(x0[i] == x[i]);
            }
        }
        lemma_split_char_append(s, c, x0);
        lemma_split_char_len(s, c);
        let w = s + seq![c] + x;
        assert(w.drop_last() =~= s + seq![c] + x0);
        assert(w.last() == x.last());
        assert(x.last() != c) by {
            if x.last() == c {
                assert(x.contains(c)) by {
                    assert(x[x.len() - 1] == c);
                }
            }
        }
        let init = split_char(w.drop_last(), c);
        assert(split_char(w, c) == init.update(init.len() - 1, init.last().push(w.last())));
        assert(x0.push(x.last()) =~= x);
        assert(split_char(s, c).push(x0).update(
            split_char(s, c).len() as int,
            x0.push(x.last()),
        ) =~= split_char(s, c).push(x));
    }
}

/// A piece without separators splits into itself.
pub proof fn lemma_split_char_single(x: Seq<char>, c: char)
    requires
        !x.contains(c),
    ensures
        split_char(x, c) == seq![x],
    decreases x.len(),
{
    if x.len() > 0 {
        let x0 = x.drop_last();
        assert(!x0.contains(c)) by {
            assert forall|i: int| 0 <= i < x0.len() implies x0[i] != c by {
                assert(x0[i] == x[i]);
            }
        }
        lemma_split_char_single(x0, c);
        assert(x.last() != c) by {
            if x.last() == c {
                assert(x[x.len() - 1] == c);
            }
        }
        assert(x0.push(x.last()) =~= x);
        assert(seq![x0].update(0, x0.push(x.last())) =~= seq![x]);
    } else {
        assert(x =~= Seq::<char>::empty());
    }
}

/// Splitting two texts joined by a separator gives the pieces of the first, then those of the
/// second.
pub proof fn lemma_split_char_concat(s: Seq<char>, c: char, t: Seq<char>)
    ensures
        split_char(s + seq![c] + t, c) == split_char(s, c) + split_char(t, c),
    decreases t.len(),
{
    lemma_split_char_len(s, c);
    if t.len() == 0 {
        let w = s + seq![c] + t;
        assert(w.drop_last() =~= s);
        assert(w.last() == c);
        assert(split_char(w, c) == split_char(w.drop_last(), c).push(Seq::<char>::empty()));
        assert(split_char(t, c) == seq![Seq::<char>::empty()]);
        assert(split_char(s, c).push(Seq::<char>::empty()) =~= split_char(s, c) + seq![
            Seq::<char>::empty(),
        ]);
    } else {
        let t0 = t.drop_last();
        lemma_split_char_concat(s, c, t0);
        lemma_split_char_len(t0, c);
        let w = s + seq![c] + t;
        assert(w.drop_last() =~= s + seq![c] + t0);
        assert(w.last() == t.last());
        let a = split_char(s, c);
        let b0 = split_char(t0, c);
        if t.last() == c {
            assert((a + b0).push(Seq::<char>::empty()) =~= a + b0.push(Seq::<char>::empty()));
        } else {
            let init = a + b0;
            assert(init.update(init.len() - 1, init.last().push(t.last())) =~= a + b0.update(
                b0.len() - 1,
                b0.last().push(t.last()),
            ));
        }
    }
}

/// A blank piece among the pieces of a descriptor changes nothing: its pairs are those without
/// it.
pub proof fn lemma_pairs_skip_blank(ps: Seq<Seq<char>>, x: Seq<char>, qs: Seq<Seq<char>>)
    requires
        trim(x).len() == 0,
    ensures
        spec_pairs_of(ps + seq![x] + qs) == spec_pairs_of(ps + qs),
    decreases qs.len(),
{
    if qs.len() == 0 {
        assert(ps + seq![x] + qs =~= ps.push(x));
        assert(ps.push(x).drop_last() =~= ps);
        assert(ps + qs =~= ps);
    } else {
        let q0 = qs.drop_last();
        lemma_pairs_skip_blank(ps, x, q0);
        assert((ps + seq![x] + qs).drop_last() =~= ps + seq![x] + q0);
        assert((ps + qs).drop_last() =~= ps + q0);
        assert((ps + seq![x] + qs).last() == qs.last());
        assert((ps + qs).last() == qs.last());
    }
}

/// Inserting a blank segment (after a comma) into a descriptor leaves its pairs, and so its
/// parse as a `--module` or a `--ocpp` descriptor, as they were.
pub proof fn lemma_blank_segment_ignored(a: Seq<char>, x: Seq<char>, b: Seq<char>)
    requires
        !x.contains(','),
        trim(x).len() == 0,
    ensures
        spec_pairs(a + seq![','] + x + seq![','] + b) == spec_pairs(a + seq![','] + b),
        spec_parse_module_spec(a + seq![','] + x + seq![','] + b) == spec_parse_module_spec(
            a + seq![','] + b,
        ),
        spec_parse_ocpp_spec(a + seq![','] + x + seq![','] + b) == spec_parse_ocpp_spec(
            a + seq![','] + b,
        ),
{
    let c = ',';
    assert(a + seq![c] + x + seq![c] + b =~= a + seq![c] + (x + seq![c] + b));
    lemma_split_char_concat(a, c, x + seq![c] + b);
    lemma_split_char_concat(x, c, b);
    lemma_split_char_single(x, c);
    lemma_split_char_concat(a, c, b);
    let sa = split_char(a, c);
    let sb = split_char(b, c);
    assert(sa + (seq![x] + sb) =~= sa + seq![x] + sb);
    lemma_pairs_skip_blank(sa, x, sb);
}

/// Keys a `--ocpp` descriptor reads.
pub open spec fn ocpp_key(k: Seq<char>) -> bool {
    k == "name"@ || k == "device"@ || k == "ip"@ || k == "port"@ || k == "path"@ || k
        == "protocol"@
}

/// A `--ocpp` descriptor ignores keys it does not read: appending a part `x` (after a comma)
/// whose key is none of `name`, `device`, `ip`, `port`, `path`, `protocol` leaves the result
/// as it was.
pub proof fn lemma_ocpp_spec_ignores_other_keys(s: Seq<char>, x: Seq<char>)
    requires
        !x.contains(','),
        split_once_by(trim(x), is_char('=')) matches Some((k, _)) && !ocpp_key(trim(k)),
    ensures
        spec_parse_ocpp_spec(s + seq![','] + x) == spec_parse_ocpp_spec(s),
{
    lemma_split_char_append(s, ',', x);
    let parts = split_char(s, ',');
    assert(split_char(s + seq![','] + x, ',').drop_last() =~= parts);
    let (k, v) = split_once_by(trim(x), is_char('=')).unwrap();
    assert(trim(x).len() > 0) by {
        let i = first_index(trim(x), is_char('='));
        lemma_first_index_bound(trim(x), is_char('='));
    }
    match spec_pairs_of(parts) {
        Err(_) => {},
        Ok(m) => {
            let m2 = m.push((trim(k), trim(v)));
            assert(spec_pairs(s + seq![','] + x) == Ok::<_, Seq<char>>(m2));
            assert(m2.drop_last() =~= m);
            assert(lookup(m2, "name"@) == lookup(m, "name"@));
            assert(lookup(m2, "device"@) == lookup(m, "device"@));
            assert(lookup(m2, "ip"@) == lookup(m, "ip"@));
            assert(lookup(m2, "port"@) == lookup(m, "port"@));
            assert(lookup(m2, "path"@) == lookup(m, "path"@));
            assert(lookup(m2, "protocol"@) == lookup(m, "protocol"@));
        },
    }
}

/// Parse a single `--ocpp` value (`key=val,key=val,...`) into an OCPP module instance.
pub fn parse_ocpp_spec(input: &str) -> (r: Result<OcppModuleSpec, String>)
    ensures
        match r {
            Ok(s) => spec_parse_ocpp_spec(input@) == Ok::<_, Seq<char>>(s@),
            Err(e) => spec_parse_ocpp_spec(input@) == Err::<OcppModuleSpecView, _>(e@),
        },
{
    let m = match descriptor_pairs(input) {
        Ok(m) => m,
        Err(e) => return Err(e),
    };
    let name = match get(&m, "name") {
        Some(n) => string_of(&n),
        None => return Err(string_of(&chars_of("ocpp module requires 'name'"))),
    };
    let device = match get(&m, "device") {
        Some(d) => string_of(&d),
        None => return Err(string_of(&chars_of("ocpp module requires 'device'"))),
    };
    let ip = match get(&m, "ip") {
        Some(i) => string_of(&i),
        None => string_of(&chars_of("127.0.0.1")),
    };
    let port = match get(&m, "port") {
        None => return Err(string_of(&chars_of("ocpp module requires 'port'"))),
        Some(p) => match parse_u16(&p) {
            Some(x) => x,
            None => return Err(string_of(&chars_of("invalid 'port'"))),
        },
    };
    let path = match get(&m, "path") {
        Some(p) => string_of(&p),
        None => string_of(&Vec::new()),
    };
    proof {
        reveal_strlit("ws");
        reveal_strlit("wss");
        assert("ws"@ != "wss"@) by {
            assert("ws"@.len() != "wss"@.len());
        }
    }
    let protocol = match get(&m, "protocol") {
        None => OcppProtocol::Ws,
        Some(p) => {
            if is(&p, "ws") {
                OcppProtocol::Ws
            } else if is(&p, "wss") {
                OcppProtocol::Wss
            } else {
                let mut msg = chars_of("invalid protocol '");
                append(&mut msg, &p);
                let tail = chars_of("' (expected ws|wss)");
                append(&mut msg, &tail);
                return Err(string_of(&msg));
            }
        },
    };
    Ok(OcppModuleSpec { name, device, protocol, ip, port, path })
}

/// The instance a `--device FILE` flag builds: a TCP client of the demo endpoint
/// `127.0.0.1:5020`.
pub open spec fn spec_device_module(name: Seq<char>, device: Seq<char>) -> ModuleSpecView {
    ModuleSpecView {
        name,
        device,
        role: Role::Client,
        endpoint: EndpointView::Tcp { ip: "127.0.0.1"@, port: 5020 },
        timeout_ms: None,
        delay_ms: None,
        interval_ms: None,
    }
}

/// Build the module instance for a `--device` flag.
pub fn create_module_spec_by_device(name: String, device: String) -> (r: ModuleSpec)
    ensures
        r@ == spec_device_module(name@, device@),
{
    ModuleSpec {
        name,
        device,
        role: Role::Client,
        endpoint: Endpoint::Tcp { ip: string_of(&chars_of("127.0.0.1")), port: 5020 },
        timeout_ms: None,
        delay_ms: None,
        interval_ms: None,
    }
}

// ---------------------------------------------------------------------------------------------
// Resolving every instance: session files first, then `--module` flags, then `--device` flags.
// ---------------------------------------------------------------------------------------------

/// One module entry of a session file, as the loader reads it: the entry's `type` tag (where
/// it is a string), and the entry read as a Modbus and as an OCPP instance (or the reason it
/// is not one).
#[derive(Debug)]
pub struct SessionEntry {
    pub kind: Option<String>,
    pub modbus: Result<ModuleSpec, String>,
    pub ocpp: Result<OcppModuleSpec, String>,
}

/// The models of a list of module instances.
pub open spec fn module_views(v: Seq<ModuleSpec>) -> Seq<ModuleSpecView> {
    v.map_values(|s: ModuleSpec| s@)
}

/// The models of a list of OCPP module instances.
pub open spec fn ocpp_views(v: Seq<OcppModuleSpec>) -> Seq<OcppModuleSpecView> {
    v.map_values(|s: OcppModuleSpec| s@)
}

/// The character sequences of a list of strings.
pub open spec fn strs(v: Seq<String>) -> Seq<Seq<char>> {
    v.map_values(|s: String| s@)
}

/// The `type` of a session entry; an entry without a string tag is a Modbus one.
pub open spec fn entry_kind(e: SessionEntry) -> Seq<char> {
    match e.kind {
        Some(k) => k@,
        None => "modbus"@,
    }
}

/// What one session entry adds to the Modbus instances: one instance, none (an OCPP entry),
/// or the error that aborts the resolution.
pub open spec fn spec_entry_modbus(e: SessionEntry) -> Result<Option<ModuleSpecView>, Seq<char>> {
    let k = entry_kind(e);
    if k == "modbus"@ {
        match e.modbus {
            Ok(s) => Ok(Some(s@)),
            Err(m) => Err("invalid modbus module spec: "@ + m@),
        }
    } else if k == "ocpp"@ {
        Ok(None)
    } else {
        Err("unsupported module type '"@ + k + "'"@)
    }
}

/// What one session entry adds to the OCPP instances.
pub open spec fn spec_entry_ocpp(e: SessionEntry) -> Result<Option<OcppModuleSpecView>, Seq<char>> {
    if e.kind is Some && e.kind.unwrap()@ == "ocpp"@ {
        match e.ocpp {
            Ok(s) => Ok(Some(s@)),
            Err(m) => Err("invalid ocpp module spec: "@ + m@),
        }
    } else {
        Ok(None)
    }
}

/// The Modbus instances of the entries of one session, in order, or the first error.
pub open spec fn spec_entries_modbus(es: Seq<SessionEntry>) -> Result<Seq<ModuleSpecView>, Seq<char>>
    decreases es.len(),
{
    if es.len() == 0 {
        Ok(Seq::<ModuleSpecView>::empty())
    } else {
        match spec_entries_modbus(es.drop_last()) {
            Err(e) => Err(e),
            Ok(acc) => match spec_entry_modbus(es.last()) {
                Err(e) => Err(e),
                Ok(None) => Ok(acc),
                Ok(Some(s)) => Ok(acc.push(s)),
            },
        }
    }
}

/// The OCPP instances of the entries of one session, in order, or the first error.
pub open spec fn spec_entries_ocpp(es: Seq<SessionEntry>) -> Result<Seq<OcppModuleSpecView>, Seq<char>>
    decreases es.len(),
{
    if es.len() == 0 {
        Ok(Seq::<OcppModuleSpecView>::empty())
    } else {
        match spec_entries_ocpp(es.drop_last()) {
            Err(e) => Err(e),
            Ok(acc) => match spec_entry_ocpp(es.last()) {
                Err(e) => Err(e),
                Ok(None) => Ok(acc),
                Ok(Some(s)) => Ok(acc.push(s)),
            },
        }
    }
}

/// The Modbus instances of a list of loaded sessions (each the entries of one file, or the
/// error loading it), in order, or the first error.
pub open spec fn spec_sessions_modbus(ss: Seq<Result<Vec<SessionEntry>, String>>) -> Result<
    Seq<ModuleSpecView>,
    Seq<char>,
>
    decreases ss.len(),
{
    if ss.len() == 0 {
        Ok(Seq::<ModuleSpecView>::empty())
    } else {
        match spec_sessions_modbus(ss.drop_last()) {
            Err(e) => Err(e),
            Ok(acc) => match ss.last() {
                Err(e) => Err(e@),
                Ok(es) => match spec_entries_modbus(es@) {
                    Err(e) => Err(e),
                    Ok(more) => Ok(acc + more),
                },
            },
        }
    }
}

/// The OCPP instances of a list of loaded sessions, in order, or the first error.
pub open spec fn spec_sessions_ocpp(ss: Seq<Result<Vec<SessionEntry>, String>>) -> Result<
    Seq<OcppModuleSpecView>,
    Seq<char>,
>
    decreases ss.len(),
{
    if ss.len() == 0 {
        Ok(Seq::<OcppModuleSpecView>::empty())
    } else {
        match spec_sessions_ocpp(ss.drop_last()) {
            Err(e) => Err(e),
            Ok(acc) => match ss.last() {
                Err(e) => Err(e@),
                Ok(es) => match spec_entries_ocpp(es@) {
                    Err(e) => Err(e),
                    Ok(more) => Ok(acc + more),
                },
            },
        }
    }
}

/// The instances of a list of `--module` descriptors, in order, or the first error.
pub open spec fn spec_parse_modules(ds: Seq<Seq<char>>) -> Result<Seq<ModuleSpecView>, Seq<char>>
    decreases ds.len(),
{
    if ds.len() == 0 {
        Ok(Seq::<ModuleSpecView>::empty())
    } else {
        match spec_parse_modules(ds.drop_last()) {
            Err(e) => Err(e),
            Ok(acc) => match spec_parse_module_spec(ds.last()) {
                Err(e) => Err(e),
                Ok(s) => Ok(acc.push(s)),
            },
        }
    }
}

/// The instances of a list of `--ocpp` descriptors, in order, or the first error.
pub open spec fn spec_parse_ocpps(ds: Seq<Seq<char>>) -> Result<Seq<OcppModuleSpecView>, Seq<char>>
    decreases ds.len(),
{
    if ds.len() == 0 {
        Ok(Seq::<OcppModuleSpecView>::empty())
    } else {
        match spec_parse_ocpps(ds.drop_last()) {
            Err(e) => Err(e),
            Ok(acc) => match spec_parse_ocpp_spec(ds.last()) {
                Err(e) => Err(e),
                Ok(s) => Ok(acc.push(s)),
            },
        }
    }
}

/// The instances of `--device` flags: the `i`-th is named `Device i`.
pub open spec fn spec_device_modules(devices: Seq<Seq<char>>) -> Seq<ModuleSpecView> {
    Seq::new(
        devices.len(),
        |i: int| spec_device_module("Device "@ + decimal(i as nat), devices[i]),
    )
}

/// Every Modbus instance: those of the sessions, then of the `--module` descriptors, then of
/// the `--device` files; or the first error.
pub open spec fn spec_module_specs(
    loaded: Seq<Result<Vec<SessionEntry>, String>>,
    modules: Seq<Seq<char>>,
    devices: Seq<Seq<char>>,
) -> Result<Seq<ModuleSpecView>, Seq<char>> {
    match spec_sessions_modbus(loaded) {
        Err(e) => Err(e),
        Ok(a) => match spec_parse_modules(modules) {
            Err(e) => Err(e),
            Ok(b) => Ok(a + b + spec_device_modules(devices)),
        },
    }
}

/// A session entry that resolves: typed `modbus` (or untyped) with a spec that deserialized,
/// or typed `ocpp`.
pub open spec fn entry_resolves(e: SessionEntry) -> bool {
    (entry_kind(e) == "modbus"@ && e.modbus is Ok) || entry_kind(e) == "ocpp"@
}

/// The Modbus instances the entries hold, in order: one per `modbus` (or untyped) entry.
pub open spec fn modbus_entries(es: Seq<SessionEntry>) -> Seq<ModuleSpecView>
    decreases es.len(),
{
    if es.len() == 0 {
        Seq::empty()
    } else {
        let acc = modbus_entries(es.drop_last());
        if entry_kind(es.last()) == "modbus"@ {
            acc.push(es.last().modbus->Ok_0@)
        } else {
            acc
        }
    }
}

/// Every session loaded and every one of its entries resolves.
pub open spec fn sessions_resolve(ss: Seq<Result<Vec<SessionEntry>, String>>) -> bool {
    forall|i: int|
        0 <= i < ss.len() ==> (#[trigger] ss[i]) is Ok && forall|j: int|
            0 <= j < ss[i]->Ok_0@.len() ==> entry_resolves(#[trigger] ss[i]->Ok_0@[j])
}

/// The Modbus instances of the sessions, file after file, each in entry order.
pub open spec fn session_modules(ss: Seq<Result<Vec<SessionEntry>, String>>) -> Seq<ModuleSpecView>
    decreases ss.len(),
{
    if ss.len() == 0 {
        Seq::empty()
    } else {
        session_modules(ss.drop_last()) + modbus_entries(ss.last()->Ok_0@)
    }
}

/// Every `--module` descriptor parses.
pub open spec fn descriptors_parse(ds: Seq<Seq<char>>) -> bool {
    forall|i: int| 0 <= i < ds.len() ==> (#[trigger] spec_parse_module_spec(ds[i])) is Ok
}

/// The instances the `--module` descriptors parse to, in order.
pub open spec fn parsed_modules(ds: Seq<Seq<char>>) -> Seq<ModuleSpecView> {
    ds.map_values(|d: Seq<char>| spec_parse_module_spec(d)->Ok_0)
}

proof fn lemma_entries_resolve(es: Seq<SessionEntry>)
    requires
        forall|j: int| 0 <= j < es.len() ==> entry_resolves(#[trigger] es[j]),
    ensures
        spec_entries_modbus(es) == Ok::<_, Seq<char>>(modbus_entries(es)),
    decreases es.len(),
{
    reveal_strlit("modbus");
    reveal_strlit("ocpp");
    assert("modbus"@ != "ocpp"@) by {
        assert("modbus"@.len() != "ocpp"@.len());
    }
    if es.len() > 0 {
        let init = es.drop_last();
        assert forall|j: int| 0 <= j < init.len() implies entry_resolves(#[trigger] init[j]) by {
            assert(init[j] == es[j]);
        }
        lemma_entries_resolve(init);
        assert(entry_resolves(es[es.len() - 1]));
    }
}

proof fn lemma_sessions_resolve(ss: Seq<Result<Vec<SessionEntry>, String>>)
    requires
        sessions_resolve(ss),
    ensures
        spec_sessions_modbus(ss) == Ok::<_, Seq<char>>(session_modules(ss)),
    decreases ss.len(),
{
    if ss.len() > 0 {
        let init = ss.drop_last();
        assert(sessions_resolve(init)) by {
            assert forall|i: int| 0 <= i < init.len() implies (#[trigger] init[i]) is Ok
                && forall|j: int|
                0 <= j < init[i]->Ok_0@.len() ==> entry_resolves(#[trigger] init[i]->Ok_0@[j]) by {
                assert(init[i] == ss[i]);
            }
        }
        lemma_sessions_resolve(init);
        let last = ss[ss.len() - 1];
        assert(last is Ok);
        lemma_entries_resolve(last->Ok_0@);
    }
}

proof fn lemma_descriptors_parse(ds: Seq<Seq<char>>)
    requires
        descriptors_parse(ds),
    ensures
        spec_parse_modules(ds) == Ok::<_, Seq<char>>(parsed_modules(ds)),
    decreases ds.len(),
{
    if ds.len() > 0 {
        let init = ds.drop_last();
        assert(descriptors_parse(init)) by {
            assert forall|i: int| 0 <= i < init.len() implies (#[trigger] spec_parse_module_spec(
                init[i],
            )) is Ok by {
                assert(init[i] == ds[i]);
            }
        }
        lemma_descriptors_parse(init);
        assert(spec_parse_module_spec(ds[ds.len() - 1]) is Ok);
        assert(parsed_modules(ds) =~= parsed_modules(init).push(
            spec_parse_module_spec(ds.last())->Ok_0,
        ));
    } else {
        assert(parsed_modules(ds) =~= Seq::<ModuleSpecView>::empty());
    }
}

/// When every session file loads, each of its entries is a Modbus one that deserialized or an
/// OCPP one, and every `--module` descriptor parses, the Modbus instances are the sessions'
/// (file after file, in entry order), then the descriptors', then one per `--device` file.
pub proof fn lemma_module_specs_concatenate(
    loaded: Seq<Result<Vec<SessionEntry>, String>>,
    modules: Seq<Seq<char>>,
    devices: Seq<Seq<char>>,
)
    requires
        sessions_resolve(loaded),
        descriptors_parse(modules),
    ensures
        spec_module_specs(loaded, modules, devices) == Ok::<_, Seq<char>>(
            session_modules(loaded) + parsed_modules(modules) + spec_device_modules(devices),
        ),
{
    lemma_sessions_resolve(loaded);
    lemma_descriptors_parse(modules);
}

/// A session entry whose `type` is `ocpp`.
pub open spec fn ocpp_typed(e: SessionEntry) -> bool {
    entry_kind(e) == "ocpp"@
}

/// The test that keeps the entries typed `ocpp`.
pub open spec fn ocpp_filter() -> spec_fn(SessionEntry) -> bool {
    |e: SessionEntry| ocpp_typed(e)
}

/// The OCPP instance an entry holds.
pub open spec fn ocpp_instance() -> spec_fn(SessionEntry) -> OcppModuleSpecView {
    |e: SessionEntry| e.ocpp->Ok_0@
}

/// The OCPP instances the entries hold, in entry order: one per entry typed `ocpp`.
pub open spec fn ocpp_entries(es: Seq<SessionEntry>) -> Seq<OcppModuleSpecView> {
    es.filter(ocpp_filter()).map_values(ocpp_instance())
}

/// Every session loaded, and every entry of it typed `ocpp` deserialized as an OCPP instance.
pub open spec fn sessions_ocpp_resolve(ss: Seq<Result<Vec<SessionEntry>, String>>) -> bool {
    forall|i: int|
        0 <= i < ss.len() ==> (#[trigger] ss[i]) is Ok && forall|j: int|
            0 <= j < ss[i]->Ok_0@.len() && ocpp_typed(#[trigger] ss[i]->Ok_0@[j]) ==> ss[i]->Ok_0@[j].ocpp is Ok
}

/// The OCPP instances of the sessions, file after file, each in entry order.
pub open spec fn session_ocpp_modules(ss: Seq<Result<Vec<SessionEntry>, String>>) -> Seq<
    OcppModuleSpecView,
>
    decreases ss.len(),
{
    if ss.len() == 0 {
        Seq::empty()
    } else {
        session_ocpp_modules(ss.drop_last()) + ocpp_entries(ss.last()->Ok_0@)
    }
}

/// Every `--ocpp` descriptor parses.
pub open spec fn ocpp_descriptors_parse(ds: Seq<Seq<char>>) -> bool {
    forall|i: int| 0 <= i < ds.len() ==> (#[trigger] spec_parse_ocpp_spec(ds[i])) is Ok
}

/// The instances the `--ocpp` descriptors parse to, in order.
pub open spec fn parsed_ocpps(ds: Seq<Seq<char>>) -> Seq<OcppModuleSpecView> {
    ds.map_values(|d: Seq<char>| spec_parse_ocpp_spec(d)->Ok_0)
}

proof fn lemma_entries_ocpp_resolve(es: Seq<SessionEntry>)
    requires
        forall|j: int| 0 <= j < es.len() && ocpp_typed(#[trigger] es[j]) ==> es[j].ocpp is Ok,
    ensures
        spec_entries_ocpp(es) == Ok::<_, Seq<char>>(ocpp_entries(es)),
    decreases es.len(),
{
    reveal_strlit("modbus");
    reveal_strlit("ocpp");
    assert("modbus"@ != "ocpp"@) by {
        assert("modbus"@.len() != "ocpp"@.len());
    }
    if es.len() == 0 {
        assert(ocpp_entries(es) =~= Seq::<OcppModuleSpecView>::empty());
    } else {
        let init = es.drop_last();
        let last = es.last();
        assert forall|j: int| 0 <= j < init.len() && ocpp_typed(#[trigger] init[j]) implies init[j].ocpp is Ok by {
            assert(init[j] == es[j]);
        }
        lemma_entries_ocpp_resolve(init);
        let kept = init.filter(ocpp_filter());
        reveal(Seq::filter);
        assert(es.filter(ocpp_filter()) == if ocpp_typed(last) {
            kept.push(last)
        } else {
            kept
        });
        if ocpp_typed(last) {
            assert(es[es.len() - 1] == last);
            assert(kept.push(last).map_values(ocpp_instance()) =~= kept.map_values(
                ocpp_instance(),
            ).push(last.ocpp->Ok_0@));
        }
    }
}

proof fn lemma_sessions_ocpp_resolve(ss: Seq<Result<Vec<SessionEntry>, String>>)
    requires
        sessions_ocpp_resolve(ss),
    ensures
        spec_sessions_ocpp(ss) == Ok::<_, Seq<char>>(session_ocpp_modules(ss)),
    decreases ss.len(),
{
    if ss.len() > 0 {
        let init = ss.drop_last();
        assert(sessions_ocpp_resolve(init)) by {
            assert forall|i: int| 0 <= i < init.len() implies (#[trigger] init[i]) is Ok
                && forall|j: int|
                0 <= j < init[i]->Ok_0@.len() && ocpp_typed(#[trigger] init[i]->Ok_0@[j])
                    ==> init[i]->Ok_0@[j].ocpp is Ok by {
                assert(init[i] == ss[i]);
            }
        }
        lemma_sessions_ocpp_resolve(init);
        let last = ss[ss.len() - 1];
        assert(last is Ok);
        lemma_entries_ocpp_resolve(last->Ok_0@);
    }
}

proof fn lemma_ocpp_descriptors_parse(ds: Seq<Seq<char>>)
    requires
        ocpp_descriptors_parse(ds),
    ensures
        spec_parse_ocpps(ds) == Ok::<_, Seq<char>>(parsed_ocpps(ds)),
    decreases ds.len(),
{
    if ds.len() > 0 {
        let init = ds.drop_last();
        assert(ocpp_descriptors_parse(init)) by {
            assert forall|i: int| 0 <= i < init.len() implies (#[trigger] spec_parse_ocpp_spec(
                init[i],
            )) is Ok by {
                assert(init[i] == ds[i]);
            }
        }
        lemma_ocpp_descriptors_parse(init);
        assert(spec_parse_ocpp_spec(ds[ds.len() - 1]) is Ok);
        assert(parsed_ocpps(ds) =~= parsed_ocpps(init).push(spec_parse_ocpp_spec(ds.last())->Ok_0));
    } else {
        assert(parsed_ocpps(ds) =~= Seq::<OcppModuleSpecView>::empty());
    }
}

/// When every session file loads and each of its entries typed `ocpp` deserialized, the OCPP
/// instances of the sessions are, file after file, one per entry typed `ocpp`, in entry order:
/// none of them is dropped or replaced by a later one.
pub proof fn lemma_sessions_ocpp_in_entry_order(loaded: Seq<Result<Vec<SessionEntry>, String>>)
    requires
        sessions_ocpp_resolve(loaded),
    ensures
        spec_sessions_ocpp(loaded) == Ok::<_, Seq<char>>(session_ocpp_modules(loaded)),
{
    lemma_sessions_ocpp_resolve(loaded);
}

/// When, further, every `--ocpp` descriptor parses, the OCPP instances of `run` are the
/// sessions' (file after file, one per entry typed `ocpp`, in entry order), then one per
/// descriptor, in order.
pub proof fn lemma_ocpp_specs_concatenate(
    loaded: Seq<Result<Vec<SessionEntry>, String>>,
    ocpp: Seq<Seq<char>>,
)
    requires
        sessions_ocpp_resolve(loaded),
        ocpp_descriptors_parse(ocpp),
    ensures
        spec_run_ocpp_specs(loaded, ocpp) == Ok::<_, Seq<char>>(
            session_ocpp_modules(loaded) + parsed_ocpps(ocpp),
        ),
{
    lemma_sessions_ocpp_resolve(loaded);
    lemma_ocpp_descriptors_parse(ocpp);
}

/// The Modbus instances of one session's entries.
fn entries_modbus(entries: Vec<SessionEntry>) -> (r: Result<Vec<ModuleSpec>, String>)
    ensures
        match r {
            Ok(v) => spec_entries_modbus(entries@) == Ok::<_, Seq<char>>(module_views(v@)),
            Err(e) => spec_entries_modbus(entries@) == Err::<Seq<ModuleSpecView>, _>(e@),
        },
{
    let ghost all = entries@;
    let mut rest = entries;
    let mut out: Vec<ModuleSpec> = Vec::new();
    proof {
        assert(all.take(0) =~= Seq::<SessionEntry>::empty());
        assert(module_views(out@) =~= Seq::<ModuleSpecView>::empty());
        reveal_strlit("modbus");
        reveal_strlit("ocpp");
        assert("modbus"@ != "ocpp"@) by {
            assert("modbus"@.len() != "ocpp"@.len());
        }
    }
    while rest.len() > 0
        invariant
            all == entries@,
            rest@.len() <= all.len(),
            rest@ == all.skip(all.len() - rest@.len()),
            spec_entries_modbus(all.take(all.len() - rest@.len())) == Ok::<_, Seq<char>>(
                module_views(out@),
            ),
            "modbus"@ != "ocpp"@,
        decreases rest.len(),
    {
        let ghost k = all.len() - rest@.len();
        let e = rest.remove(0);
        proof {
            assert(e == all[k]);
            assert(all.take(k + 1).drop_last() =~= all.take(k));
            assert(all.take(k + 1).last() == all[k]);
            assert(rest@ =~= all.skip(all.len() - rest@.len()));
        }
        let is_modbus = match &e.kind {
            None => true,
            Some(k) => is(&chars_of(k.as_str()), "modbus"),
        };
        if is_modbus {
            match e.modbus {
                Ok(s) => {
                    let ghost before = module_views(out@);
                    out.push(s);
                    assert(module_views(out@) =~= before.push(s@));
                },
                Err(m) => {
                    let msg = concat3("invalid modbus module spec: ", &chars_of(m.as_str()), "");
                    proof {
                        reveal_strlit("");
                        assert(msg@ =~= "invalid modbus module spec: "@ + m@);
                        lemma_entries_modbus_error_persists(all, k + 1);
                        assert(all.take(all.len() as int) =~= all);
                    }
                    return Err(msg);
                },
            }
        } else {
            let k = e.kind.unwrap();
            let known = is(&chars_of(k.as_str()), "ocpp");
            if !known {
                let msg = concat3("unsupported module type '", &chars_of(k.as_str()), "'");
                proof {
                    lemma_entries_modbus_error_persists(all, all.len() - rest@.len());
                    assert(all.take(all.len() as int) =~= all);
                }
                return Err(msg);
            }
        }
    }
    assert(all.take(all.len() as int) =~= all);
    Ok(out)
}

/// Once the Modbus instances of a prefix of the entries are an error, so are those of all.
pub proof fn lemma_entries_modbus_error_persists(es: Seq<SessionEntry>, k: int)
    requires
        0 <= k <= es.len(),
        spec_entries_modbus(es.take(k)) is Err,
    ensures
        spec_entries_modbus(es.take(es.len() as int)) == spec_entries_modbus(es.take(k)),
    decreases es.len() - k,
{
    if k < es.len() {
        assert(es.take(k + 1).drop_last() =~= es.take(k));
        lemma_entries_modbus_error_persists(es, k + 1);
    }
}

/// The OCPP instances of one session's entries.
fn entries_ocpp(entries: Vec<SessionEntry>) -> (r: Result<Vec<OcppModuleSpec>, String>)
    ensures
        match r {
            Ok(v) => spec_entries_ocpp(entries@) == Ok::<_, Seq<char>>(ocpp_views(v@)),
            Err(e) => spec_entries_ocpp(entries@) == Err::<Seq<OcppModuleSpecView>, _>(e@),
        },
{
    let ghost all = entries@;
    let mut rest = entries;
    let mut out: Vec<OcppModuleSpec> = Vec::new();
    proof {
        assert(all.take(0) =~= Seq::<SessionEntry>::empty());
        assert(ocpp_views(out@) =~= Seq::<OcppModuleSpecView>::empty());
    }
    while rest.len() > 0
        invariant
            all == entries@,
            rest@.len() <= all.len(),
            rest@ == all.skip(all.len() - rest@.len()),
            spec_entries_ocpp(all.take(all.len() - rest@.len())) == Ok::<_, Seq<char>>(
                ocpp_views(out@),
            ),
        decreases rest.len(),
    {
        let ghost k = all.len() - rest@.len();
        let e = rest.remove(0);
        proof {
            assert(e == all[k]);
            assert(all.take(k + 1).drop_last() =~= all.take(k));
            assert(all.take(k + 1).last() == all[k]);
            assert(rest@ =~= all.skip(all.len() - rest@.len()));
        }
        let is_ocpp = match &e.kind {
            None => false,
            Some(k) => is(&chars_of(k.as_str()), "ocpp"),
        };
        if is_ocpp {
            match e.ocpp {
                Ok(s) => {
                    let ghost before = ocpp_views(out@);
                    out.push(s);
                    assert(ocpp_views(out@) =~= before.push(s@));
                },
                Err(m) => {
                    let msg = concat3("invalid ocpp module spec: ", &chars_of(m.as_str()), "");
                    proof {
                        reveal_strlit("");
                        assert(msg@ =~= "invalid ocpp module spec: "@ + m@);
                        lemma_entries_ocpp_error_persists(all, k + 1);
                        assert(all.take(all.len() as int) =~= all);
                    }
                    return Err(msg);
                },
            }
        }
    }
    assert(all.take(all.len() as int) =~= all);
    Ok(out)
}

/// Once the OCPP instances of a prefix of the entries are an error, so are those of all.
pub proof fn lemma_entries_ocpp_error_persists(es: Seq<SessionEntry>, k: int)
    requires
        0 <= k <= es.len(),
        spec_entries_ocpp(es.take(k)) is Err,
    ensures
        spec_entries_ocpp(es.take(es.len() as int)) == spec_entries_ocpp(es.take(k)),
    decreases es.len() - k,
{
    if k < es.len() {
        assert(es.take(k + 1).drop_last() =~= es.take(k));
        lemma_entries_ocpp_error_persists(es, k + 1);
    }
}

/// Once the Modbus instances of a prefix of the sessions are an error, so are those of all.
pub proof fn lemma_sessions_modbus_error_persists(ss: Seq<Result<Vec<SessionEntry>, String>>, k: int)
    requires
        0 <= k <= ss.len(),
        spec_sessions_modbus(ss.take(k)) is Err,
    ensures
        spec_sessions_modbus(ss.take(ss.len() as int)) == spec_sessions_modbus(ss.take(k)),
    decreases ss.len() - k,
{
    if k < ss.len() {
        assert(ss.take(k + 1).drop_last() =~= ss.take(k));
        lemma_sessions_modbus_error_persists(ss, k + 1);
    }
}

/// Once the OCPP instances of a prefix of the sessions are an error, so are those of all.
pub proof fn lemma_sessions_ocpp_error_persists(ss: Seq<Result<Vec<SessionEntry>, String>>, k: int)
    requires
        0 <= k <= ss.len(),
        spec_sessions_ocpp(ss.take(k)) is Err,
    ensures
        spec_sessions_ocpp(ss.take(ss.len() as int)) == spec_sessions_ocpp(ss.take(k)),
    decreases ss.len() - k,
{
    if k < ss.len() {
        assert(ss.take(k + 1).drop_last() =~= ss.take(k));
        lemma_sessions_ocpp_error_persists(ss, k + 1);
    }
}

/// The Modbus instances of the loaded sessions.
fn sessions_modbus(loaded: Vec<Result<Vec<SessionEntry>, String>>) -> (r: Result<
    Vec<ModuleSpec>,
    String,
>)
    ensures
        match r {
            Ok(v) => spec_sessions_modbus(loaded@) == Ok::<_, Seq<char>>(module_views(v@)),
            Err(e) => spec_sessions_modbus(loaded@) == Err::<Seq<ModuleSpecView>, _>(e@),
        },
{
    let ghost all = loaded@;
    let mut rest = loaded;
    let mut out: Vec<ModuleSpec> = Vec::new();
    proof {
        assert(all.take(0) =~= Seq::<Result<Vec<SessionEntry>, String>>::empty());
        assert(module_views(out@) =~= Seq::<ModuleSpecView>::empty());
    }
    while rest.len() > 0
        invariant
            all == loaded@,
            rest@.len() <= all.len(),
            rest@ == all.skip(all.len() - rest@.len()),
            spec_sessions_modbus(all.take(all.len() - rest@.len())) == Ok::<_, Seq<char>>(
                module_views(out@),
            ),
        decreases rest.len(),
    {
        let ghost k = all.len() - rest@.len();
        let session = rest.remove(0);
        proof {
            assert(session == all[k]);
            assert(all.take(k + 1).drop_last() =~= all.take(k));
            assert(all.take(k + 1).last() == all[k]);
            assert(rest@ =~= all.skip(all.len() - rest@.len()));
        }
        match session {
            Err(e) => {
                proof {
                    lemma_sessions_modbus_error_persists(all, k + 1);
                    assert(all.take(all.len() as int) =~= all);
                }
                return Err(e);
            },
            Ok(entries) => match entries_modbus(entries) {
                Err(e) => {
                    proof {
                        lemma_sessions_modbus_error_persists(all, k + 1);
                        assert(all.take(all.len() as int) =~= all);
                    }
                    return Err(e);
                },
                Ok(more) => {
                    let ghost before = module_views(out@);
                    let ghost added = module_views(more@);
                    let mut more = more;
                    out.append(&mut more);
                    assert(module_views(out@) =~= before + added);
                },
            },
        }
    }
    assert(all.take(all.len() as int) =~= all);
    Ok(out)
}

/// The OCPP instances of the loaded sessions.
fn sessions_ocpp(loaded: Vec<Result<Vec<SessionEntry>, String>>) -> (r: Result<
    Vec<OcppModuleSpec>,
    String,
>)
    ensures
        match r {
            Ok(v) => spec_sessions_ocpp(loaded@) == Ok::<_, Seq<char>>(ocpp_views(v@)),
            Err(e) => spec_sessions_ocpp(loaded@) == Err::<Seq<OcppModuleSpecView>, _>(e@),
        },
{
    let ghost all = loaded@;
    let mut rest = loaded;
    let mut out: Vec<OcppModuleSpec> = Vec::new();
    proof {
        assert(all.take(0) =~= Seq::<Result<Vec<SessionEntry>, String>>::empty());
        assert(ocpp_views(out@) =~= Seq::<OcppModuleSpecView>::empty());
    }
    while rest.len() > 0
        invariant
            all == loaded@,
            rest@.len() <= all.len(),
            rest@ == all.skip(all.len() - rest@.len()),
            spec_sessions_ocpp(all.take(all.len() - rest@.len())) == Ok::<_, Seq<char>>(
                ocpp_views(out@),
            ),
        decreases rest.len(),
    {
        let ghost k = all.len() - rest@.len();
        let session = rest.remove(0);
        proof {
            assert(session == all[k]);
            assert(all.take(k + 1).drop_last() =~= all.take(k));
            assert(all.take(k + 1).last() == all[k]);
            assert(rest@ =~= all.skip(all.len() - rest@.len()));
        }
        match session {
            Err(e) => {
                proof {
                    lemma_sessions_ocpp_error_persists(all, k + 1);
                    assert(all.take(all.len() as int) =~= all);
                }
                return Err(e);
            },
            Ok(entries) => match entries_ocpp(entries) {
                Err(e) => {
                    proof {
                        lemma_sessions_ocpp_error_persists(all, k + 1);
                        assert(all.take(all.len() as int) =~= all);
                    }
                    return Err(e);
                },
                Ok(more) => {
                    let ghost before = ocpp_views(out@);
                    let ghost added = ocpp_views(more@);
                    let mut more = more;
                    out.append(&mut more);
                    assert(ocpp_views(out@) =~= before + added);
                },
            },
        }
    }
    assert(all.take(all.len() as int) =~= all);
    Ok(out)
}

/// Once the instances of a prefix of the `--module` descriptors are an error, so are those of
/// all of them.
pub proof fn lemma_parse_modules_error_persists(ds: Seq<Seq<char>>, k: int)
    requires
        0 <= k <= ds.len(),
        spec_parse_modules(ds.take(k)) is Err,
    ensures
        spec_parse_modules(ds.take(ds.len() as int)) == spec_parse_modules(ds.take(k)),
    decreases ds.len() - k,
{
    if k < ds.len() {
        assert(ds.take(k + 1).drop_last() =~= ds.take(k));
        lemma_parse_modules_error_persists(ds, k + 1);
    }
}

/// Once the instances of a prefix of the `--ocpp` descriptors are an error, so are those of
/// all of them.
pub proof fn lemma_parse_ocpps_error_persists(ds: Seq<Seq<char>>, k: int)
    requires
        0 <= k <= ds.len(),
        spec_parse_ocpps(ds.take(k)) is Err,
    ensures
        spec_parse_ocpps(ds.take(ds.len() as int)) == spec_parse_ocpps(ds.take(k)),
    decreases ds.len() - k,
{
    if k < ds.len() {
        assert(ds.take(k + 1).drop_last() =~= ds.take(k));
        lemma_parse_ocpps_error_persists(ds, k + 1);
    }
}

/// Appends the instances of the `--module` descriptors `ds` to `out`.
fn push_parsed_modules(out: &mut Vec<ModuleSpec>, ds: &Vec<String>) -> (r: Result<(), String>)
    ensures
        match r {
            Ok(()) => exists|added: Seq<ModuleSpecView>|
                spec_parse_modules(strs(ds@)) == Ok::<_, Seq<char>>(added) && module_views(
                    final(out)@,
                ) == module_views(old(out)@) + added,
            Err(e) => spec_parse_modules(strs(ds@)) == Err::<Seq<ModuleSpecView>, _>(e@),
        },
{
    let ghost base = module_views(out@);
    let ghost all = strs(ds@);
    let mut i: usize = 0;
    proof {
        assert(all.take(0) =~= Seq::<Seq<char>>::empty());
        assert(module_views(out@) =~= base + Seq::<ModuleSpecView>::empty());
    }
    while i < ds.len()
        invariant
            i <= ds@.len(),
            all == strs(ds@),
            base == module_views(old(out)@),
            exists|added: Seq<ModuleSpecView>|
                spec_parse_modules(all.take(i as int)) == Ok::<_, Seq<char>>(added)
                    && module_views(out@) == base + added,
        decreases ds.len() - i,
    {
        let ghost added = choose|added: Seq<ModuleSpecView>|
            spec_parse_modules(all.take(i as int)) == Ok::<_, Seq<char>>(added)
                && module_views(out@) == base + added;
        proof {
            assert(all.take(i + 1).drop_last() =~= all.take(i as int));
            assert(all.take(i + 1).last() == ds@[i as int]@);
        }
        match parse_module_spec(ds[i].as_str()) {
            Ok(spec) => {
                let ghost before = module_views(out@);
                out.push(spec);
                assert(module_views(out@) =~= before.push(spec@));
                assert(module_views(out@) =~= base + added.push(spec@));
            },
            Err(e) => {
                proof {
                    lemma_parse_modules_error_persists(all, i + 1);
                    assert(all.take(all.len() as int) =~= all);
                }
                return Err(e);
            },
        }
        i += 1;
    }
    assert(all.take(all.len() as int) =~= all);
    Ok(())
}

/// Appends the instances of the `--ocpp` descriptors `ds` to `out`.
fn push_parsed_ocpps(out: &mut Vec<OcppModuleSpec>, ds: &Vec<String>) -> (r: Result<(), String>)
    ensures
        match r {
            Ok(()) => exists|added: Seq<OcppModuleSpecView>|
                spec_parse_ocpps(strs(ds@)) == Ok::<_, Seq<char>>(added) && ocpp_views(
                    final(out)@,
                ) == ocpp_views(old(out)@) + added,
            Err(e) => spec_parse_ocpps(strs(ds@)) == Err::<Seq<OcppModuleSpecView>, _>(e@),
        },
{
    let ghost base = ocpp_views(out@);
    let ghost all = strs(ds@);
    let mut i: usize = 0;
    proof {
        assert(all.take(0) =~= Seq::<Seq<char>>::empty());
        assert(ocpp_views(out@) =~= base + Seq::<OcppModuleSpecView>::empty());
    }
    while i < ds.len()
        invariant
            i <= ds@.len(),
            all == strs(ds@),
            base == ocpp_views(old(out)@),
            exists|added: Seq<OcppModuleSpecView>|
                spec_parse_ocpps(all.take(i as int)) == Ok::<_, Seq<char>>(added)
                    && ocpp_views(out@) == base + added,
        decreases ds.len() - i,
    {
        let ghost added = choose|added: Seq<OcppModuleSpecView>|
            spec_parse_ocpps(all.take(i as int)) == Ok::<_, Seq<char>>(added)
                && ocpp_views(out@) == base + added;
        proof {
            assert(all.take(i + 1).drop_last() =~= all.take(i as int));
            assert(all.take(i + 1).last() == ds@[i as int]@);
        }
        match parse_ocpp_spec(ds[i].as_str()) {
            Ok(spec) => {
                let ghost before = ocpp_views(out@);
                out.push(spec);
                assert(ocpp_views(out@) =~= before.push(spec@));
                assert(ocpp_views(out@) =~= base + added.push(spec@));
            },
            Err(e) => {
                proof {
                    lemma_parse_ocpps_error_persists(all, i + 1);
                    assert(all.take(all.len() as int) =~= all);
                }
                return Err(e);
            },
        }
        i += 1;
    }
    assert(all.take(all.len() as int) =~= all);
    Ok(())
}

/// Appends the instances of the `--device` files `devices` to `out`.
fn push_device_modules(out: &mut Vec<ModuleSpec>, devices: &Vec<String>)
    ensures
        module_views(final(out)@) == module_views(old(out)@) + spec_device_modules(strs(devices@)),
{
    let ghost base = module_views(out@);
    let mut i: usize = 0;
    while i < devices.len()
        invariant
            i <= devices@.len(),
            base == module_views(old(out)@),
            module_views(out@) == base + spec_device_modules(strs(devices@)).take(i as int),
        decreases devices.len() - i,
    {
        let mut name = chars_of("Device ");
        push_decimal(&mut name, i as u128);
        let spec = create_module_spec_by_device(string_of(&name), devices[i].clone());
        let ghost before = module_views(out@);
        out.push(spec);
        proof {
            assert(spec@ == spec_device_modules(strs(devices@))[i as int]);
            assert(module_views(out@) =~= before.push(spec@));
            assert(spec_device_modules(strs(devices@)).take(i + 1) =~= spec_device_modules(
                strs(devices@),
            ).take(i as int).push(spec@));
        }
        i += 1;
    }
    assert(spec_device_modules(strs(devices@)).take(i as int) =~= spec_device_modules(
        strs(devices@),
    ));
}

impl CliArgs {
    /// Resolve every module instance from the sessions (first; `loaded` holds, in the order
    /// of the `--session` flags, each file's entries or the error loading it), then the
    /// `--module` flags, then the `--device` flags (named `Device 0`, `Device 1`, ...).
    pub fn module_specs(&self, loaded: Vec<Result<Vec<SessionEntry>, String>>) -> (r: Result<
        Vec<ModuleSpec>,
        String,
    >)
        ensures
            match r {
                Ok(v) => spec_module_specs(loaded@, strs(self.modules@), strs(self.devices@))
                    == Ok::<_, Seq<char>>(module_views(v@)),
                Err(e) => spec_module_specs(loaded@, strs(self.modules@), strs(self.devices@))
                    == Err::<Seq<ModuleSpecView>, _>(e@),
            },
    {
        let mut specs = match sessions_modbus(loaded) {
            Ok(v) => v,
            Err(e) => return Err(e),
        };
        match push_parsed_modules(&mut specs, &self.modules) {
            Ok(()) => {},
            Err(e) => return Err(e),
        }
        let ghost mid = module_views(specs@);
        push_device_modules(&mut specs, &self.devices);
        proof {
            let a = spec_sessions_modbus(loaded@)->Ok_0;
            let b = spec_parse_modules(strs(self.modules@))->Ok_0;
            assert(mid == a + b);
            assert(module_views(specs@) =~= a + b + spec_device_modules(strs(self.devices@)));
        }
        Ok(specs)
    }

    /// Resolve every OCPP module instance from the sessions (entries tagged `ocpp`).
    pub fn ocpp_specs(&self, loaded: Vec<Result<Vec<SessionEntry>, String>>) -> (r: Result<
        Vec<OcppModuleSpec>,
        String,
    >)
        ensures
            match r {
                Ok(v) => spec_sessions_ocpp(loaded@) == Ok::<_, Seq<char>>(ocpp_views(v@)),
                Err(e) => spec_sessions_ocpp(loaded@) == Err::<Seq<OcppModuleSpecView>, _>(e@),
            },
    {
        sessions_ocpp(loaded)
    }
}

/// A copy of a list of strings.
fn copy_strings(v: &Vec<String>) -> (r: Vec<String>)
    ensures
        r@ == v@,
{
    let mut out: Vec<String> = Vec::new();
    let mut i: usize = 0;
    while i < v.len()
        invariant
            i <= v@.len(),
            out@ == v@.take(i as int),
        decreases v.len() - i,
    {
        out.push(v[i].clone());
        assert(out@ =~= v@.take(i + 1));
        i += 1;
    }
    assert(v@.take(i as int) =~= v@);
    out
}

/// The OCPP instances of `run`: those of the sessions, then those of the `--ocpp` descriptors;
/// or the first error.
pub open spec fn spec_run_ocpp_specs(
    loaded: Seq<Result<Vec<SessionEntry>, String>>,
    ocpp: Seq<Seq<char>>,
) -> Result<Seq<OcppModuleSpecView>, Seq<char>> {
    match spec_sessions_ocpp(loaded) {
        Err(e) => Err(e),
        Ok(a) => match spec_parse_ocpps(ocpp) {
            Err(e) => Err(e),
            Ok(b) => Ok(a + b),
        },
    }
}

impl RunArgs {
    /// Resolve the Modbus instances the same way the interactive path does, over the
    /// equivalent `--session`/`--module` flags.
    pub fn module_specs(&self, loaded: Vec<Result<Vec<SessionEntry>, String>>) -> (r: Result<
        Vec<ModuleSpec>,
        String,
    >)
        ensures
            match r {
                Ok(v) => spec_module_specs(loaded@, strs(self.modules@), Seq::empty())
                    == Ok::<_, Seq<char>>(module_views(v@)),
                Err(e) => spec_module_specs(loaded@, strs(self.modules@), Seq::empty())
                    == Err::<Seq<ModuleSpecView>, _>(e@),
            },
    {
        let args = self.as_cli_args();
        proof {
            assert(strs(args.devices@) =~= Seq::<Seq<char>>::empty());
        }
        args.module_specs(loaded)
    }

    /// Resolve the OCPP instances from the sessions, plus the `--ocpp` descriptors.
    pub fn ocpp_specs(&self, loaded: Vec<Result<Vec<SessionEntry>, String>>) -> (r: Result<
        Vec<OcppModuleSpec>,
        String,
    >)
        ensures
            match r {
                Ok(v) => spec_run_ocpp_specs(loaded@, strs(self.ocpp@)) == Ok::<_, Seq<char>>(
                    ocpp_views(v@),
                ),
                Err(e) => spec_run_ocpp_specs(loaded@, strs(self.ocpp@)) == Err::<
                    Seq<OcppModuleSpecView>,
                    _,
                >(e@),
            },
    {
        let mut specs = match self.as_cli_args().ocpp_specs(loaded) {
            Ok(v) => v,
            Err(e) => return Err(e),
        };
        match push_parsed_ocpps(&mut specs, &self.ocpp) {
            Ok(()) => Ok(specs),
            Err(e) => Err(e),
        }
    }

    /// The top-level arguments equivalent to this `run`: its sessions and modules, nothing
    /// else.
    pub fn as_cli_args(&self) -> (r: CliArgs)
        ensures
            r.command is None,
            r.modules@ == self.modules@,
            r.sessions@ == self.sessions@,
            r.devices@.len() == 0,
            !r.demo,
    {
        CliArgs {
            command: None,
            modules: copy_strings(&self.modules),
            sessions: copy_strings(&self.sessions),
            devices: Vec::new(),
            demo: false,
        }
    }
}

/// Milliseconds since the Unix epoch (0 for a clock set before it).
pub fn now_ms() -> (r: u64) {
    crate::time::now_unix_ms()
}

} // verus!
