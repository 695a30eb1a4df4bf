//! Device, session and application configuration: the data model of the config files and the
//! defaults their absent fields take. (Loading and saving files lives with the application.)
use vstd::prelude::*;

use crate::command::opt_view;
use crate::convert::{path_extension, spec_file_type_of_extension, FileType};
use crate::num::{decimal, push_decimal};
use crate::num::{
    all_digits, digit_value, lemma_decimal_digits, lemma_decimal_parses, parse_unsigned, parse_usize,
};
use crate::text::{
    append, chars_of, is_char, owned, seqs, split_char, split_char_vec, split_once_by,
    split_once_char, string_of, trim, trim_chars, trim_end, trim_start,
};

verus! {

/// One named Lua simulation script attached to a device type.
#[derive(Debug, Clone, PartialEq)]
pub struct ScriptDef {
    pub name: String,
    pub code: String,
    /// Whether the script runs in the simulation loop (on by default).
    pub enabled: bool,
}

/// The default of `ScriptDef::enabled`: a flag-less script is active.
pub fn default_true() -> (r: bool)
    ensures
        r,
{
    true
}

/// General application config (globals not tied to a single device type).
#[derive(Debug, Clone, PartialEq, Eq)]
pub struct AppConfig {
    /// Number of log lines kept in the on-screen ring buffer per module.
    pub history_length: usize,
    pub timeout_ms: usize,
    pub delay_ms: usize,
    pub interval_ms: usize,
    /// Base path for per-module log files; `None` disables them.
    pub log_file: Option<String>,
}

pub fn default_history() -> (r: usize)
    ensures
        r == 80,
{
    80
}

pub fn default_timeout() -> (r: usize)
    ensures
        r == 3000,
{
    3000
}

pub fn default_delay() -> (r: usize)
    ensures
        r == 1000,
{
    1000
}

pub fn default_interval() -> (r: usize)
    ensures
        r == 1000,
{
    1000
}

impl Default for AppConfig {
    fn default() -> (r: Self)
        ensures
            r.history_length == 80,
            r.timeout_ms == 3000,
            r.delay_ms == 1000,
            r.interval_ms == 1000,
            r.log_file is None,
    {
        AppConfig {
            history_length: default_history(),
            timeout_ms: default_timeout(),
            delay_ms: default_delay(),
            interval_ms: default_interval(),
            log_file: None,
        }
    }
}

/// Whether a module polls a remote device (client) or simulates one (server).
#[derive(Debug, Clone, Copy, PartialEq, Eq, Structural)]
pub enum Role {
    Client,
    Server,
}

impl Default for Role {
    fn default() -> (r: Self)
        ensures
            r == Role::Server,
    {
        Role::Server
    }
}

impl Role {
    /// The role's display name.
    pub fn name(&self) -> (r: String)
        ensures
            r@ == (match self {
                Role::Client => "Client"@,
                Role::Server => "Server"@,
            }),
    {
        match self {
            Role::Client => owned("Client"),
            Role::Server => owned("Server"),
        }
    }
}

/// Transport endpoint of a module instance.
#[derive(Debug, Clone, PartialEq)]
pub enum Endpoint {
    Tcp { ip: String, port: u16 },
    Rtu {
        path: String,
        baud_rate: u32,
        parity: Option<String>,
        data_bits: Option<u8>,
        stop_bits: Option<u8>,
    },
    RtuOverTcp { ip: String, port: u16 },
    Udp { ip: String, port: u16 },
    Ascii {
        path: String,
        baud_rate: u32,
        parity: Option<String>,
        data_bits: Option<u8>,
        stop_bits: Option<u8>,
    },
    AsciiOverTcp { ip: String, port: u16 },
}

/// The model of an `Endpoint`: its strings as character sequences.
pub ghost enum EndpointView {
    Tcp { ip: Seq<char>, port: u16 },
    Rtu {
        path: Seq<char>,
        baud_rate: u32,
        parity: Option<Seq<char>>,
        data_bits: Option<u8>,
        stop_bits: Option<u8>,
    },
    RtuOverTcp { ip: Seq<char>, port: u16 },
    Udp { ip: Seq<char>, port: u16 },
    Ascii {
        path: Seq<char>,
        baud_rate: u32,
        parity: Option<Seq<char>>,
        data_bits: Option<u8>,
        stop_bits: Option<u8>,
    },
    AsciiOverTcp { ip: Seq<char>, port: u16 },
}

impl View for Endpoint {
    type V = EndpointView;

    open spec fn view(&self) -> EndpointView {
        match self {
            Endpoint::Tcp { ip, port } => EndpointView::Tcp { ip: ip@, port: *port },
            Endpoint::Rtu { path, baud_rate, parity, data_bits, stop_bits } => EndpointView::Rtu {
                path: path@,
                baud_rate: *baud_rate,
                parity: opt_view(*parity),
                data_bits: *data_bits,
                stop_bits: *stop_bits,
            },
            Endpoint::RtuOverTcp { ip, port } => EndpointView::RtuOverTcp { ip: ip@, port: *port },
            Endpoint::Udp { ip, port } => EndpointView::Udp { ip: ip@, port: *port },
            Endpoint::Ascii { path, baud_rate, parity, data_bits, stop_bits } => EndpointView::Ascii {
                path: path@,
                baud_rate: *baud_rate,
                parity: opt_view(*parity),
                data_bits: *data_bits,
                stop_bits: *stop_bits,
            },
            Endpoint::AsciiOverTcp { ip, port } => EndpointView::AsciiOverTcp {
                ip: ip@,
                port: *port,
            },
        }
    }
}

/// `Some(n)` as its decimal digits, `None` as `-`.
pub open spec fn opt_decimal(o: Option<u8>) -> Seq<char> {
    match o {
        Some(n) => decimal(n as nat),
        None => "-"@,
    }
}

/// The display form of an endpoint: `ip:port` for network transports,
/// `path,baud,parity,data_bits,stop_bits` (absent ones as `-`) for serial ones.
pub open spec fn spec_endpoint_display(e: EndpointView) -> Seq<char> {
    match e {
        EndpointView::Tcp { ip, port } => ip + ":"@ + decimal(port as nat),
        EndpointView::RtuOverTcp { ip, port } => ip + ":"@ + decimal(port as nat),
        EndpointView::Udp { ip, port } => ip + ":"@ + decimal(port as nat),
        EndpointView::AsciiOverTcp { ip, port } => ip + ":"@ + decimal(port as nat),
        EndpointView::Rtu { path, baud_rate, parity, data_bits, stop_bits } => path + ","@
            + decimal(baud_rate as nat) + ","@ + (match parity {
            Some(p) => p,
            None => "-"@,
        }) + ","@ + opt_decimal(data_bits) + ","@ + opt_decimal(stop_bits),
        EndpointView::Ascii { path, baud_rate, parity, data_bits, stop_bits } => path + ","@
            + decimal(baud_rate as nat) + ","@ + (match parity {
            Some(p) => p,
            None => "-"@,
        }) + ","@ + opt_decimal(data_bits) + ","@ + opt_decimal(stop_bits),
    }
}

fn push_lit(out: &mut Vec<char>, lit: &str)
    ensures
        final(out)@ == old(out)@ + lit@,
{
    let l = chars_of(lit);
    append(out, &l);
}

fn push_opt_u8(out: &mut Vec<char>, o: Option<u8>)
    ensures
        final(out)@ == old(out)@ + opt_decimal(o),
{
    match o {
        Some(n) => push_decimal(out, n as u128),
        None => push_lit(out, "-"),
    }
}

fn network_display(ip: &String, port: u16) -> (r: String)
    ensures
        r@ == ip@ + ":"@ + decimal(port as nat),
{
    let mut out = chars_of(ip.as_str());
    push_lit(&mut out, ":");
    push_decimal(&mut out, port as u128);
    string_of(&out)
}

fn serial_display(
    path: &String,
    baud_rate: u32,
    parity: &Option<String>,
    data_bits: Option<u8>,
    stop_bits: Option<u8>,
) -> (r: String)
    ensures
        r@ == path@ + ","@ + decimal(baud_rate as nat) + ","@ + (match parity {
            Some(p) => p@,
            None => "-"@,
        }) + ","@ + opt_decimal(data_bits) + ","@ + opt_decimal(stop_bits),
{
    let mut out = chars_of(path.as_str());
    push_lit(&mut out, ",");
    push_decimal(&mut out, baud_rate as u128);
    push_lit(&mut out, ",");
    match parity {
        Some(p) => push_lit(&mut out, p.as_str()),
        None => push_lit(&mut out, "-"),
    }
    push_lit(&mut out, ",");
    push_opt_u8(&mut out, data_bits);
    push_lit(&mut out, ",");
    push_opt_u8(&mut out, stop_bits);
    string_of(&out)
}

impl Endpoint {
    /// The endpoint's display form.
    pub fn to_display(&self) -> (r: String)
        ensures
            r@ == spec_endpoint_display(self@),
    {
        match self {
            Endpoint::Tcp { ip, port } => network_display(ip, *port),
            Endpoint::RtuOverTcp { ip, port } => network_display(ip, *port),
            Endpoint::Udp { ip, port } => network_display(ip, *port),
            Endpoint::AsciiOverTcp { ip, port } => network_display(ip, *port),
            Endpoint::Rtu { path, baud_rate, parity, data_bits, stop_bits } => serial_display(
                path,
                *baud_rate,
                parity,
                *data_bits,
                *stop_bits,
            ),
            Endpoint::Ascii { path, baud_rate, parity, data_bits, stop_bits } => serial_display(
                path,
                *baud_rate,
                parity,
                *data_bits,
                *stop_bits,
            ),
        }
    }
}

/// The default serial baud rate.
pub fn default_baud() -> (r: u32)
    ensures
        r == 19200,
{
    19200
}

/// One module instance: which device type, named, with a role and an endpoint, and optional
/// per-instance timing overrides (ms).
#[derive(Debug, Clone, PartialEq)]
pub struct ModuleSpec {
    pub name: String,
    /// Path to the device-type config file.
    pub device: String,
    pub role: Role,
    pub endpoint: Endpoint,
    pub timeout_ms: Option<usize>,
    pub delay_ms: Option<usize>,
    pub interval_ms: Option<usize>,
}

/// The model of a `ModuleSpec`.
pub ghost struct ModuleSpecView {
    pub name: Seq<char>,
    pub device: Seq<char>,
    pub role: Role,
    pub endpoint: EndpointView,
    pub timeout_ms: Option<usize>,
    pub delay_ms: Option<usize>,
    pub interval_ms: Option<usize>,
}

impl View for ModuleSpec {
    type V = ModuleSpecView;

    open spec fn view(&self) -> ModuleSpecView {
        ModuleSpecView {
            name: self.name@,
            device: self.device@,
            role: self.role,
            endpoint: self.endpoint@,
            timeout_ms: self.timeout_ms,
            delay_ms: self.delay_ms,
            interval_ms: self.interval_ms,
        }
    }
}

/// A pre-configured set of module instances.
#[derive(Debug, Clone, PartialEq)]
pub struct Session {
    /// Ferrowl version that wrote the file.
    pub version: Option<String>,
    pub modules: Vec<ModuleSpec>,
}

impl Default for Session {
    fn default() -> (r: Self)
        ensures
            r.version is None,
            r.modules@.len() == 0,
    {
        Session { version: None, modules: Vec::new() }
    }
}

/// OCPP websocket protocol: plain or TLS.
#[derive(Debug, Clone, Copy, PartialEq, Eq, Structural)]
pub enum OcppProtocol {
    Ws,
    Wss,
}

/// One OCPP module instance: device file plus websocket endpoint.
#[derive(Debug, Clone, PartialEq)]
pub struct OcppModuleSpec {
    pub name: String,
    pub device: String,
    pub protocol: OcppProtocol,
    pub ip: String,
    pub port: u16,
    pub path: String,
}

/// The model of an `OcppModuleSpec`.
pub ghost struct OcppModuleSpecView {
    pub name: Seq<char>,
    pub device: Seq<char>,
    pub protocol: OcppProtocol,
    pub ip: Seq<char>,
    pub port: u16,
    pub path: Seq<char>,
}

impl View for OcppModuleSpec {
    type V = OcppModuleSpecView;

    open spec fn view(&self) -> OcppModuleSpecView {
        OcppModuleSpecView {
            name: self.name@,
            device: self.device@,
            protocol: self.protocol,
            ip: self.ip@,
            port: self.port,
            path: self.path@,
        }
    }
}

/// Per-function-code explicit read ranges, each a comma-separated list of inclusive address
/// ranges such as `"0-100,140-160"`.
#[derive(Debug, Clone, PartialEq, Eq, Default)]
pub struct ReadRanges {
    pub holding: Option<String>,
    pub input: Option<String>,
    pub coils: Option<String>,
    pub discrete: Option<String>,
}

impl ReadRanges {
    /// No function code has explicit ranges.
    pub fn is_empty(&self) -> (r: bool)
        ensures
            r == (self.holding is None && self.input is None && self.coils is None
                && self.discrete is None),
    {
        self.holding.is_none() && self.input.is_none() && self.coils.is_none()
            && self.discrete.is_none()
    }
}

/// The value encoding of a register.
#[derive(Debug, Clone, Copy, PartialEq, Eq, Structural)]
pub enum ValueType {
    U8,
    U16,
    U32,
    U64,
    U128,
    I8,
    I16,
    I32,
    I64,
    I128,
    F32,
    F64,
    Ascii,
}

#[derive(Debug, Clone, Copy, PartialEq, Eq, Structural)]
pub enum AccessCfg {
    ReadOnly,
    WriteOnly,
    ReadWrite,
}

impl Default for AccessCfg {
    fn default() -> (r: Self)
        ensures
            r == AccessCfg::ReadWrite,
    {
        AccessCfg::ReadWrite
    }
}

#[derive(Debug, Clone, Copy, PartialEq, Eq, Structural)]
pub enum EndianCfg {
    Big,
    Little,
}

impl Default for EndianCfg {
    fn default() -> (r: Self)
        ensures
            r == EndianCfg::Big,
    {
        EndianCfg::Big
    }
}

#[derive(Debug, Clone, Copy, PartialEq, Eq, Structural)]
pub enum AlignmentCfg {
    Left,
    Right,
}

impl Default for AlignmentCfg {
    fn default() -> (r: Self)
        ensures
            r == AlignmentCfg::Left,
    {
        AlignmentCfg::Left
    }
}

/// The default Modbus read function code of a register definition (input registers).
pub fn default_read_code() -> (r: u8)
    ensures
        r == 3,
{
    3
}

/// The default width (in registers) of an ASCII register definition.
pub fn default_length() -> (r: usize)
    ensures
        r == 1,
{
    1
}

/// Error type of config loading.
#[derive(Debug)]
pub enum ConfigError {
    UnknownFormat(String),
    Io(String),
}

impl ConfigError {
    /// The error's message (its display form).
    pub fn message(&self) -> (r: String)
        ensures
            r@ == (match self {
                ConfigError::UnknownFormat(p) => "invalid file (JSON/TOML): "@ + p@,
                ConfigError::Io(m) => m@,
            }),
    {
        match self {
            ConfigError::UnknownFormat(p) => {
                let mut out = chars_of("invalid file (JSON/TOML): ");
                let pv = chars_of(p.as_str());
                append(&mut out, &pv);
                string_of(&out)
            },
            ConfigError::Io(m) => m.clone(),
        }
    }
}

/// The format a config path names, or `UnknownFormat` carrying the path.
pub fn file_type(path: &str) -> (r: Result<FileType, ConfigError>)
    ensures
        match r {
            Ok(t) => spec_file_type_of_extension(path_extension(path@)) == Some(t),
            Err(ConfigError::UnknownFormat(p)) => spec_file_type_of_extension(
                path_extension(path@),
            ) is None && p@ == path@,
            Err(ConfigError::Io(_)) => false,
        },
{
    match FileType::from_path(path) {
        Some(t) => Ok(t),
        None => Err(ConfigError::UnknownFormat(string_of(&chars_of(path)))),
    }
}

/// The format a file is saved in, by its path, or the message `:w`/`:wd` report for a path
/// that names none.
pub fn save_format(path: &str) -> (r: Result<FileType, String>)
    ensures
        match spec_file_type_of_extension(path_extension(path@)) {
            Some(t) => r == Ok::<FileType, String>(t),
            Option::None => r matches Err(m) && m@ == "unknown format for '"@ + path@
                + "' (use .toml or .json)"@,
        },
{
    match FileType::from_path(path) {
        Some(t) => Ok(t),
        None => {
            let mut m = chars_of("unknown format for '");
            append(&mut m, &chars_of(path));
            append(&mut m, &chars_of("' (use .toml or .json)"));
            Err(string_of(&m))
        },
    }
}

/// Load a config file: check that its path names a format, then `read` it in that format (the
/// reader does the I/O); read errors become `ConfigError::Io`. The reader is called at most
/// once, and only with the format of the path.
pub fn load_with<T, F: FnOnce(FileType) -> Result<T, String>>(path: &str, read: F) -> (r: Result<
    T,
    ConfigError,
>)
    requires
        forall|t: FileType| call_requires(read, (t,)),
    ensures
        match spec_file_type_of_extension(path_extension(path@)) {
            Option::None => r matches Err(ConfigError::UnknownFormat(p)) && p@ == path@,
            Some(t) => match r {
                Ok(v) => call_ensures(read, (t,), Ok::<T, String>(v)),
                Err(ConfigError::Io(e)) => exists|m: String|
                    #[trigger] call_ensures(read, (t,), Err::<T, String>(m)) && m@ == e@,
                Err(ConfigError::UnknownFormat(_)) => false,
            },
        },
{
    let t = match file_type(path) {
        Ok(t) => t,
        Err(e) => return Err(e),
    };
    let res = read(t);
    match res {
        Ok(v) => Ok(v),
        Err(m) => {
            proof {
                assert(call_ensures(read, (t,), Err::<T, String>(m)));
                assert(exists|m2: String|
                    #[trigger] call_ensures(read, (t,), Err::<T, String>(m2)) && m2@ == m@);
            }
            Err(ConfigError::Io(m))
        },
    }
}

/// Load a session file through `read` (see `load_with`).
pub fn load_session<F: FnOnce(FileType) -> Result<Session, String>>(path: &str, read: F) -> (r:
    Result<Session, ConfigError>)
    requires
        forall|t: FileType| call_requires(read, (t,)),
    ensures
        match spec_file_type_of_extension(path_extension(path@)) {
            Option::None => r matches Err(ConfigError::UnknownFormat(p)) && p@ == path@,
            Some(t) => match r {
                Ok(v) => call_ensures(read, (t,), Ok::<Session, String>(v)),
                Err(ConfigError::Io(e)) => exists|m: String|
                    #[trigger] call_ensures(read, (t,), Err::<Session, String>(m)) && m@ == e@,
                Err(ConfigError::UnknownFormat(_)) => false,
            },
        },
{
    load_with(path, read)
}

/// Load an OCPP device-type config file through `read` (see `load_with`).
pub fn load_ocpp_device<T, F: FnOnce(FileType) -> Result<T, String>>(path: &str, read: F) -> (r:
    Result<T, ConfigError>)
    requires
        forall|t: FileType| call_requires(read, (t,)),
    ensures
        match spec_file_type_of_extension(path_extension(path@)) {
            Option::None => r matches Err(ConfigError::UnknownFormat(p)) && p@ == path@,
            Some(t) => match r {
                Ok(v) => call_ensures(read, (t,), Ok::<T, String>(v)),
                Err(ConfigError::Io(e)) => exists|m: String|
                    #[trigger] call_ensures(read, (t,), Err::<T, String>(m)) && m@ == e@,
                Err(ConfigError::UnknownFormat(_)) => false,
            },
        },
{
    load_with(path, read)
}

// ---------------------------------------------------------------------------------------------
// Explicit read ranges.
// ---------------------------------------------------------------------------------------------

/// The kind of a Modbus data table.
#[derive(Debug, Clone, Copy, PartialEq, Eq, Structural)]
pub enum RegKind {
    Coil,
    DiscreteInput,
    HoldingRegister,
    InputRegister,
}

/// A run of `len` addresses starting at `start`.
#[derive(Debug, Clone, Copy, PartialEq, Eq, Structural)]
pub struct MemRange {
    pub start: usize,
    pub len: usize,
}

/// The range one comma-separated part of a range list names: `a-b` (inclusive, `a <= b`) or a
/// bare address; a blank, malformed or reversed part names none.
pub open spec fn spec_range_part(part: Seq<char>) -> Option<(int, int)> {
    let p = trim(part);
    if p.len() == 0 {
        Option::None
    } else {
        match split_once_by(p, is_char('-')) {
            Some((a, b)) => match (
                parse_unsigned(trim(a), 10, usize::MAX as int),
                parse_unsigned(trim(b), 10, usize::MAX as int),
            ) {
                (Some(start), Some(end)) => if end >= start {
                    Some((start, end - start + 1))
                } else {
                    Option::None
                },
                _ => Option::None,
            },
            Option::None => match parse_unsigned(p, 10, usize::MAX as int) {
                Some(addr) => Some((addr, 1int)),
                Option::None => Option::None,
            },
        }
    }
}

/// The ranges the parts name, in order, skipping parts that name none.
pub open spec fn spec_ranges_of(parts: Seq<Seq<char>>) -> Seq<(int, int)>
    decreases parts.len(),
{
    if parts.len() == 0 {
        Seq::empty()
    } else {
        let acc = spec_ranges_of(parts.drop_last());
        match spec_range_part(parts.last()) {
            Some(r) => acc.push(r),
            Option::None => acc,
        }
    }
}

/// The ranges of two lists of parts, one after the other, are those of the first list and then
/// those of the second.
proof fn lemma_ranges_of_append(p: Seq<Seq<char>>, q: Seq<Seq<char>>)
    ensures
        spec_ranges_of(p + q) == spec_ranges_of(p) + spec_ranges_of(q),
    decreases q.len(),
{
    if q.len() == 0 {
        assert(p + q =~= p);
        assert(spec_ranges_of(p) + spec_ranges_of(q) =~= spec_ranges_of(p));
    } else {
        lemma_ranges_of_append(p, q.drop_last());
        assert((p + q).drop_last() =~= p + q.drop_last());
        assert((p + q).last() == q.last());
        let a = spec_ranges_of(p);
        let b = spec_ranges_of(q.drop_last());
        match spec_range_part(q.last()) {
            Some(r) => {
                assert((a + b).push(r) =~= a + b.push(r));
            },
            Option::None => {},
        }
    }
}

/// Two range lists joined by a comma name the ranges of the first, in order, then those of the
/// second: no range is dropped, merged or reordered by what stands beside it.
pub proof fn lemma_ranges_join(a: Seq<char>, b: Seq<char>)
    ensures
        spec_ranges_of(split_char(a + seq![','] + b, ',')) == spec_ranges_of(split_char(a, ','))
            + spec_ranges_of(split_char(b, ',')),
{
    crate::cli::lemma_split_char_concat(a, ',', b);
    lemma_ranges_of_append(split_char(a, ','), split_char(b, ','));
}

/// Text made of decimal digits has no surrounding whitespace to trim.
proof fn lemma_digits_untrimmed(d: Seq<char>)
    requires
        d.len() > 0,
        all_digits(d, 10),
    ensures
        trim(d) == d,
{
    assert(digit_value(d[0], 10) >= 0);
    crate::text::lemma_lead_ws(d, 0);
    assert(trim_start(d) =~= d);
    assert(digit_value(d[d.len() - 1], 10) >= 0);
    crate::text::lemma_trail_ws(d, 0);
    assert(trim_end(d) =~= d);
}

/// The part `a-b` written in decimal, with `a <= b`, names the `b - a + 1` addresses from `a`,
/// and the bare address `a` names that one address.
pub proof fn lemma_range_part_bounds(a: nat, b: nat)
    requires
        a <= b <= usize::MAX,
    ensures
        spec_range_part(decimal(a) + seq!['-'] + decimal(b)) == Some((a as int, b - a + 1)),
        spec_range_part(decimal(a)) == Some((a as int, 1int)),
{
    let da = decimal(a);
    let db = decimal(b);
    lemma_decimal_digits(a);
    lemma_decimal_digits(b);
    lemma_decimal_parses(a, usize::MAX as int);
    lemma_decimal_parses(b, usize::MAX as int);
    lemma_digits_untrimmed(da);
    lemma_digits_untrimmed(db);
    let s = da + seq!['-'] + db;
    assert(s[0] == da[0]);
    assert(digit_value(da[0], 10) >= 0);
    crate::text::lemma_lead_ws(s, 0);
    assert(trim_start(s) =~= s);
    assert(s[s.len() - 1] == db[db.len() - 1]);
    assert(digit_value(db[db.len() - 1], 10) >= 0);
    crate::text::lemma_trail_ws(s, 0);
    assert(trim_end(s) =~= s);
    assert forall|i: int| 0 <= i < da.len() implies !is_char('-')(#[trigger] s[i]) by {
        assert(s[i] == da[i]);
        assert(digit_value(da[i], 10) >= 0);
    }
    assert(s[da.len() as int] == '-');
    crate::text::lemma_first_index(s, is_char('-'), da.len() as int);
    assert(s.take(da.len() as int) =~= da);
    assert(s.skip(da.len() as int + 1) =~= db);
    assert forall|i: int| 0 <= i < da.len() implies !is_char('-')(#[trigger] da[i]) by {
        assert(digit_value(da[i], 10) >= 0);
    }
    crate::text::lemma_first_index(da, is_char('-'), da.len() as int);
}

/// No part names a range longer than the address space (`0-18446744073709551615` on 64 bits).
pub open spec fn ranges_fit(spec: Seq<char>) -> bool {
    forall|i: int|
        0 <= i < split_char(spec, ',').len() ==> match #[trigger] spec_range_part(
            split_char(spec, ',')[i],
        ) {
            Some((_, len)) => len <= usize::MAX,
            Option::None => true,
        }
}

pub open spec fn range_views(v: Seq<MemRange>) -> Seq<(int, int)> {
    v.map_values(|r: MemRange| (r.start as int, r.len as int))
}

/// Parse `"0-100,140-160"` (inclusive bounds; a bare `"5"` is the single address 5) into
/// memory ranges. Malformed or reversed entries are skipped.
pub fn parse_ranges(spec: &str) -> (r: Vec<MemRange>)
    requires
        ranges_fit(spec@),
    ensures
        range_views(r@) == spec_ranges_of(split_char(spec@, ',')),
{
    let v = chars_of(spec);
    let parts = split_char_vec(&v, ',');
    let mut out: Vec<MemRange> = Vec::new();
    let mut i: usize = 0;
    assert(seqs(parts@).take(0) =~= Seq::<Seq<char>>::empty());
    assert(range_views(out@) =~= Seq::<(int, int)>::empty());
    while i < parts.len()
        invariant
            i <= parts@.len(),
            v@ == spec@,
            seqs(parts@) == split_char(spec@, ','),
            ranges_fit(spec@),
            range_views(out@) == spec_ranges_of(seqs(parts@).take(i as int)),
        decreases parts.len() - i,
    {
        let ghost nxt = seqs(parts@).take(i + 1);
        assert(nxt.drop_last() =~= seqs(parts@).take(i as int));
        assert(nxt.last() == parts@[i as int]@);
        assert(seqs(parts@)[i as int] == parts@[i as int]@);
        let ghost before = range_views(out@);
        match range_part(&parts[i]) {
            Some(r) => {
                out.push(r);
                assert(range_views(out@) =~= before.push((r.start as int, r.len as int)));
            },
            Option::None => {},
        }
        i += 1;
    }
    assert(seqs(parts@).take(i as int) =~= seqs(parts@));
    out
}

fn range_part(part: &Vec<char>) -> (r: Option<MemRange>)
    requires
        match spec_range_part(part@) {
            Some((_, len)) => len <= usize::MAX,
            Option::None => true,
        },
    ensures
        match r {
            Some(m) => spec_range_part(part@) == Some((m.start as int, m.len as int)),
            Option::None => spec_range_part(part@) is None,
        },
{
    let p = trim_chars(part);
    if p.len() == 0 {
        return Option::None;
    }
    match split_once_char(&p, '-') {
        Some((a, b)) => {
            let start = match parse_usize(&trim_chars(&a)) {
                Some(x) => x,
                Option::None => return Option::None,
            };
            let end = match parse_usize(&trim_chars(&b)) {
                Some(x) => x,
                Option::None => return Option::None,
            };
            if end >= start {
                Some(MemRange { start, len: end - start + 1 })
            } else {
                Option::None
            }
        },
        Option::None => match parse_usize(&p) {
            Some(addr) => Some(MemRange { start: addr, len: 1 }),
            Option::None => Option::None,
        },
    }
}

fn part_fits(part: &Vec<char>) -> (r: bool)
    ensures
        r == match spec_range_part(part@) {
            Some((_, len)) => len <= usize::MAX,
            Option::None => true,
        },
{
    let p = trim_chars(part);
    if p.len() == 0 {
        return true;
    }
    match split_once_char(&p, '-') {
        Some((a, b)) => {
            let start = match parse_usize(&trim_chars(&a)) {
                Some(x) => x,
                Option::None => return true,
            };
            let end = match parse_usize(&trim_chars(&b)) {
                Some(x) => x,
                Option::None => return true,
            };
            if end >= start {
                end - start < usize::MAX
            } else {
                true
            }
        },
        Option::None => true,
    }
}

/// Whether a range list can be parsed (see `ranges_fit`): no part names a range longer than
/// the address space.
pub fn ranges_fit_check(spec: &str) -> (b: bool)
    ensures
        b == ranges_fit(spec@),
{
    let v = chars_of(spec);
    let parts = split_char_vec(&v, ',');
    let mut i: usize = 0;
    while i < parts.len()
        invariant
            i <= parts@.len(),
            v@ == spec@,
            seqs(parts@) == split_char(spec@, ','),
            forall|k: int|
                0 <= k < i ==> match #[trigger] spec_range_part(split_char(spec@, ',')[k]) {
                    Some((_, len)) => len <= usize::MAX,
                    Option::None => true,
                },
        decreases parts.len() - i,
    {
        assert(seqs(parts@)[i as int] == parts@[i as int]@);
        if !part_fits(&parts[i]) {
            return false;
        }
        i += 1;
    }
    true
}

/// The range list a read-range set holds for `kind`, or `None`.
pub open spec fn spec_ranges_text(rr: ReadRanges, kind: RegKind) -> Option<String> {
    match kind {
        RegKind::HoldingRegister => rr.holding,
        RegKind::InputRegister => rr.input,
        RegKind::Coil => rr.coils,
        RegKind::DiscreteInput => rr.discrete,
    }
}

impl ReadRanges {
    /// The parsed ranges configured for `kind` (empty when none are configured).
    pub fn ranges_for(&self, kind: RegKind) -> (r: Vec<MemRange>)
        requires
            match spec_ranges_text(*self, kind) {
                Some(t) => ranges_fit(t@),
                Option::None => true,
            },
        ensures
            match spec_ranges_text(*self, kind) {
                Some(t) => range_views(r@) == spec_ranges_of(split_char(t@, ',')),
                Option::None => r@.len() == 0,
            },
    {
        let text = match kind {
            RegKind::HoldingRegister => &self.holding,
            RegKind::InputRegister => &self.input,
            RegKind::Coil => &self.coils,
            RegKind::DiscreteInput => &self.discrete,
        };
        match text {
            Some(t) => parse_ranges(t.as_str()),
            Option::None => Vec::new(),
        }
    }
}

/// Each register kind is polled at the ranges written for that same kind: holding registers at
/// `holding`, input registers at `input`, coils at `coils` and discrete inputs at `discrete`.
/// Two range sets that agree on a kind's own list give that kind the same ranges, whatever
/// their other lists hold.
pub proof fn lemma_ranges_for_own_kind(rr: ReadRanges, other: ReadRanges)
    ensures
        spec_ranges_text(rr, RegKind::HoldingRegister) == rr.holding,
        spec_ranges_text(rr, RegKind::InputRegister) == rr.input,
        spec_ranges_text(rr, RegKind::Coil) == rr.coils,
        spec_ranges_text(rr, RegKind::DiscreteInput) == rr.discrete,
        rr.holding == other.holding ==> spec_ranges_text(rr, RegKind::HoldingRegister)
            == spec_ranges_text(other, RegKind::HoldingRegister),
        rr.input == other.input ==> spec_ranges_text(rr, RegKind::InputRegister) == spec_ranges_text(
            other,
            RegKind::InputRegister,
        ),
        rr.coils == other.coils ==> spec_ranges_text(rr, RegKind::Coil) == spec_ranges_text(
            other,
            RegKind::Coil,
        ),
        rr.discrete == other.discrete ==> spec_ranges_text(rr, RegKind::DiscreteInput)
            == spec_ranges_text(other, RegKind::DiscreteInput),
{
}

// ---------------------------------------------------------------------------------------------
// Legacy per-register update scripts.
// ---------------------------------------------------------------------------------------------

/// The `(name, script)` pairs of the definitions, in order, whose `update` script is present
/// and not blank.
pub open spec fn spec_collect_scripts(defs: Seq<(String, Option<String>)>) -> Seq<(Seq<char>, Seq<char>)>
    decreases defs.len(),
{
    if defs.len() == 0 {
        Seq::empty()
    } else {
        let acc = spec_collect_scripts(defs.drop_last());
        match defs.last().1 {
            Some(u) => if trim(u@).len() > 0 {
                acc.push((defs.last().0@, u@))
            } else {
                acc
            },
            Option::None => acc,
        }
    }
}

/// `(name, script)` for every register definition (given as `(name, update)` in the device's
/// name order) carrying a non-blank `update` Lua snippet.
pub fn collect_scripts(defs: &Vec<(String, Option<String>)>) -> (r: Vec<(String, String)>)
    ensures
        r@.map_values(|p: (String, String)| (p.0@, p.1@)) == spec_collect_scripts(defs@),
{
    let mut out: Vec<(String, String)> = Vec::new();
    let mut i: usize = 0;
    assert(defs@.take(0) =~= Seq::<(String, Option<String>)>::empty());
    assert(out@.map_values(|p: (String, String)| (p.0@, p.1@)) =~= Seq::<(Seq<char>, Seq<char>)>::empty());
    while i < defs.len()
        invariant
            i <= defs@.len(),
            out@.map_values(|p: (String, String)| (p.0@, p.1@)) == spec_collect_scripts(
                defs@.take(i as int),
            ),
        decreases defs.len() - i,
    {
        let ghost nxt = defs@.take(i + 1);
        assert(nxt.drop_last() =~= defs@.take(i as int));
        assert(nxt.last() == defs@[i as int]);
        let ghost before = out@.map_values(|p: (String, String)| (p.0@, p.1@));
        match &defs[i].1 {
            Some(u) => {
                let t = trim_chars(&chars_of(u.as_str()));
                if t.len() > 0 {
                    out.push((defs[i].0.clone(), u.clone()));
                    assert(out@.map_values(|p: (String, String)| (p.0@, p.1@)) =~= before.push(
                        (defs@[i as int].0@, u@),
                    ));
                }
            },
            Option::None => {},
        }
        i += 1;
    }
    assert(defs@.take(i as int) =~= defs@);
    out
}

} // verus!
