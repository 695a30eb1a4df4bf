//! The decision logic of the dialogs: input validators, selection choices and their config
//! mappings, the close-confirm popup's key handling, log rows, the module setup form (its
//! validation into per-instance settings, its prefill from an existing instance, and applying
//! it), the register edit dialogs' choices and named-value list, and name uniqueness on
//! confirm.
use vstd::prelude::*;

use crate::config::{
    AlignmentCfg, EndianCfg, Endpoint, EndpointView, ModuleSpec, ModuleSpecView, RegKind, Role,
    ValueType,
};
use crate::num::{decimal, parse_signed, parse_u16, parse_u32, parse_unsigned, parse_usize};
use crate::num::{parse_signed_exec, parse_unsigned_exec, push_decimal};
use crate::text::{chars_of, is, lower, lower_vec, owned, same, slice, string_of, trim, trim_chars};

verus! {

// ---------------------------------------------------------------------------------------------
// Input validators.
// ---------------------------------------------------------------------------------------------

/// The verdict of an input validator: nothing to report (`Neutral`), positively accepted, or
/// rejected with a message.
#[derive(Debug, Clone, PartialEq, Eq)]
pub enum ValidateResult {
    Neutral,
    Success,
    Error(String),
}

/// Rejects empty input.
#[derive(Clone, Debug)]
pub struct NonEmpty();

impl NonEmpty {
    pub fn validate(input: &str) -> (r: ValidateResult)
        ensures
            input@.len() == 0 ==> (r matches ValidateResult::Error(m) && m@
                == "Non-empty input required"@),
            input@.len() > 0 ==> r == ValidateResult::Neutral,
    {
        if input.is_empty() {
            ValidateResult::Error(owned("Non-empty input required"))
        } else {
            ValidateResult::Neutral
        }
    }
}

/// A register address: the word `virtual`, or a 16-bit signed integer.
#[derive(Clone, Debug)]
pub struct Address();

impl Address {
    pub fn validate(input: &str) -> (r: ValidateResult)
        ensures
            input@ == "virtual"@ ==> r == ValidateResult::Success,
            input@ != "virtual"@ ==> if parse_signed(input@, 10, i16::MIN as int, i16::MAX as int)
                is None {
                r matches ValidateResult::Error(m) && m@
                    == "must be an integer from -32768 to 32767"@
            } else {
                r == ValidateResult::Neutral
            },
    {
        let v = chars_of(input);
        if is(&v, "virtual") {
            ValidateResult::Success
        } else {
            match parse_signed_exec(&v, 10, 32768, 32767) {
                None => ValidateResult::Error(owned("must be an integer from -32768 to 32767")),
                Some(_) => ValidateResult::Neutral,
            }
        }
    }
}

/// A bit mask: empty, or a 128-bit unsigned number in hex (`0x`/`0X` prefix) or decimal.
#[derive(Clone, Debug)]
pub struct Bitmask();

/// `s` starts with `0x` or `0X`.
pub open spec fn has_hex_prefix(s: Seq<char>) -> bool {
    s.len() >= 2 && s[0] == '0' && (s[1] == 'x' || s[1] == 'X')
}

pub open spec fn bitmask_valid(s: Seq<char>) -> bool {
    if has_hex_prefix(s) {
        parse_unsigned(s.skip(2), 16, u128::MAX as int) is Some
    } else {
        parse_unsigned(s, 10, u128::MAX as int) is Some
    }
}

impl Bitmask {
    pub fn validate(input: &str) -> (r: ValidateResult)
        ensures
            input@.len() == 0 ==> r == ValidateResult::Neutral,
            input@.len() > 0 && bitmask_valid(input@) ==> r == ValidateResult::Neutral,
            input@.len() > 0 && !bitmask_valid(input@) ==> (r matches ValidateResult::Error(m)
                && m@ == "must be a hex (0x…) or decimal number"@),
    {
        let v = chars_of(input);
        if v.len() == 0 {
            return ValidateResult::Neutral;
        }
        let parsed = if v.len() >= 2 && v[0] == '0' && (v[1] == 'x' || v[1] == 'X') {
            let digits = slice(&v, 2, v.len());
            assert(digits@ =~= v@.skip(2));
            parse_unsigned_exec(&digits, 16, u128::MAX)
        } else {
            parse_unsigned_exec(&v, 10, u128::MAX)
        };
        match parsed {
            None => ValidateResult::Error(owned("must be a hex (0x…) or decimal number")),
            Some(_) => ValidateResult::Neutral,
        }
    }
}

/// The session's sim-cycle interval, in seconds. Its value check works on real numbers and
/// lives with the application; the characters it admits are decided here.
#[derive(Clone, Debug)]
pub struct Interval();

impl Interval {
    /// Only ASCII digits and the decimal point can be typed.
    pub fn allowed_char(c: char) -> (r: bool)
        ensures
            r == (('0' <= c && c <= '9') || c == '.'),
    {
        ('0' <= c && c <= '9') || c == '.'
    }
}

// ---------------------------------------------------------------------------------------------
// Selection choices.
// ---------------------------------------------------------------------------------------------

/// Edit an existing instance, or create a new module (with an optional config path).
#[derive(Debug, Clone, Copy, PartialEq, Eq, Structural)]
pub enum DialogMode {
    Edit,
    New,
}

/// Transport selection value.
#[derive(Debug, Clone, Copy, PartialEq, Eq, Structural)]
pub enum Transport {
    Tcp,
    Rtu,
}

impl Transport {
    pub fn to_label(&self) -> (r: String)
        ensures
            r@ == match self {
                Transport::Tcp => "TCP"@,
                Transport::Rtu => "RTU"@,
            },
    {
        match self {
            Transport::Tcp => owned("TCP"),
            Transport::Rtu => owned("RTU"),
        }
    }
}

impl Role {
    pub fn to_label(&self) -> (r: String)
        ensures
            r@ == match self {
                Role::Client => "Client"@,
                Role::Server => "Server"@,
            },
    {
        match self {
            Role::Client => owned("Client"),
            Role::Server => owned("Server"),
        }
    }
}

/// Serial parity selection value (`NoParity` for none).
#[derive(Debug, Clone, Copy, PartialEq, Eq, Structural)]
pub enum Parity {
    NoParity,
    Odd,
    Even,
}

/// The config spelling of a parity (`None` = no parity).
pub open spec fn spec_parity_config(p: Parity) -> Option<Seq<char>> {
    match p {
        Parity::NoParity => Option::None,
        Parity::Odd => Some("odd"@),
        Parity::Even => Some("even"@),
    }
}

/// The parity a config value names, ignoring ASCII case; anything else (or nothing) is no
/// parity.
pub open spec fn spec_parity_from_config(value: Option<Seq<char>>) -> Parity {
    match value {
        Some(v) => if lower(v) == "odd"@ {
            Parity::Odd
        } else if lower(v) == "even"@ {
            Parity::Even
        } else {
            Parity::NoParity
        },
        Option::None => Parity::NoParity,
    }
}

/// The position of a parity in the selection list `None, Odd, Even`.
pub open spec fn spec_parity_index(p: Parity) -> usize {
    match p {
        Parity::NoParity => 0,
        Parity::Odd => 1,
        Parity::Even => 2,
    }
}

impl Parity {
    pub fn to_label(&self) -> (r: String)
        ensures
            r@ == match self {
                Parity::NoParity => "None"@,
                Parity::Odd => "Odd"@,
                Parity::Even => "Even"@,
            },
    {
        match self {
            Parity::NoParity => owned("None"),
            Parity::Odd => owned("Odd"),
            Parity::Even => owned("Even"),
        }
    }

    /// Map to the endpoint representation (`None` = no parity).
    pub fn to_config(&self) -> (r: Option<String>)
        ensures
            match r {
                Some(s) => spec_parity_config(*self) == Some(s@),
                Option::None => spec_parity_config(*self) is None,
            },
    {
        match self {
            Parity::NoParity => Option::None,
            Parity::Odd => Some(owned("odd")),
            Parity::Even => Some(owned("even")),
        }
    }

    pub fn from_config(value: Option<&str>) -> (r: Parity)
        ensures
            r == spec_parity_from_config(
                match value {
                    Some(v) => Some(v@),
                    Option::None => Option::None,
                },
            ),
    {
        match value {
            Option::None => Parity::NoParity,
            Some(v) => {
                let l = lower_vec(&chars_of(v));
                if is(&l, "odd") {
                    Parity::Odd
                } else if is(&l, "even") {
                    Parity::Even
                } else {
                    Parity::NoParity
                }
            },
        }
    }

    pub fn index(&self) -> (r: usize)
        ensures
            r == spec_parity_index(*self),
    {
        match self {
            Parity::NoParity => 0,
            Parity::Odd => 1,
            Parity::Even => 2,
        }
    }
}

/// Reading back a parity's config spelling gives the parity again.
pub proof fn lemma_parity_config_round_trip(p: Parity)
    ensures
        spec_parity_from_config(spec_parity_config(p)) == p,
{
    reveal_strlit("odd");
    reveal_strlit("even");
    match p {
        Parity::Odd => {
            assert(lower("odd"@) =~= "odd"@);
        },
        Parity::Even => {
            assert(lower("even"@) =~= "even"@);
            assert(lower("even"@) != "odd"@) by {
                assert(lower("even"@).len() != "odd"@.len());
            }
        },
        Parity::NoParity => {},
    }
}

/// Auto-reconnect toggle.
#[derive(Debug, Clone, Copy, PartialEq, Eq, Structural)]
pub enum ReconnectChoice {
    On,
    Off,
}

impl ReconnectChoice {
    pub fn to_label(&self) -> (r: String)
        ensures
            r@ == match self {
                ReconnectChoice::On => "On"@,
                ReconnectChoice::Off => "Off"@,
            },
    {
        match self {
            ReconnectChoice::On => owned("On"),
            ReconnectChoice::Off => owned("Off"),
        }
    }
}

/// A numeric serial choice (data/stop bits) rendered as a selection label.
#[derive(Debug, Clone, Copy, PartialEq, Eq, Structural)]
pub struct U8Choice(pub u8);

impl U8Choice {
    pub fn to_label(&self) -> (r: String)
        ensures
            r@ == decimal(self.0 as nat),
    {
        let mut v: Vec<char> = Vec::new();
        push_decimal(&mut v, self.0 as u128);
        assert(v@ =~= decimal(self.0 as nat));
        string_of(&v)
    }
}

/// The position of the entry equal to `current` among `values`, when there is one.
pub fn select_u8(values: &Vec<U8Choice>, current: Option<u8>) -> (r: Option<usize>)
    ensures
        match r {
            Some(i) => current is Some && i < values@.len() && values@[i as int].0
                == current.unwrap() && forall|j: int|
                0 <= j < i ==> values@[j].0 != current.unwrap(),
            Option::None => current is None || forall|j: int|
                0 <= j < values@.len() ==> values@[j].0 != current.unwrap(),
        },
{
    let value = match current {
        Some(v) => v,
        Option::None => return Option::None,
    };
    let mut i: usize = 0;
    while i < values.len()
        invariant
            i <= values@.len(),
            current == Some(value),
            forall|j: int| 0 <= j < i ==> values@[j].0 != value,
        decreases values.len() - i,
    {
        if values[i].0 == value {
            return Some(i);
        }
        i += 1;
    }
    Option::None
}

// ---------------------------------------------------------------------------------------------
// The close-confirm popup.
// ---------------------------------------------------------------------------------------------

/// Outcome of feeding a key into the close-confirm popup.
#[derive(Debug, Clone, Copy, PartialEq, Eq, Structural)]
pub enum CloseConfirmEvent {
    /// Key eaten, the popup stays open.
    Consumed,
    /// Enter or Space: the host closes the underlying dialog.
    Close,
    /// Esc: the host drops the popup; the underlying dialog stays open.
    Dismiss,
}

/// The keys the popup distinguishes.
#[derive(Debug, Clone, Copy, PartialEq, Eq, Structural)]
pub enum ConfirmKey {
    Enter,
    Esc,
    Char(char),
    Other,
}

/// The popup's answer to `key`, typed with no modifier (`plain`) or with one: only plain
/// Enter or Space close, only plain Esc dismisses, every other key is eaten.
pub fn close_confirm_event(plain: bool, key: ConfirmKey) -> (r: CloseConfirmEvent)
    ensures
        r == (if plain && (key == ConfirmKey::Enter || key == ConfirmKey::Char(' ')) {
            CloseConfirmEvent::Close
        } else if plain && key == ConfirmKey::Esc {
            CloseConfirmEvent::Dismiss
        } else {
            CloseConfirmEvent::Consumed
        }),
{
    match (plain, key) {
        (true, ConfirmKey::Enter) | (true, ConfirmKey::Char(' ')) => CloseConfirmEvent::Close,
        (true, ConfirmKey::Esc) => CloseConfirmEvent::Dismiss,
        _ => CloseConfirmEvent::Consumed,
    }
}

// ---------------------------------------------------------------------------------------------
// Log rows.
// ---------------------------------------------------------------------------------------------

/// One row of a log pane: when (milliseconds since the epoch) and what.
#[derive(Debug, Clone, PartialEq, Eq)]
pub struct LogEntry {
    pub timestamp_ms: u64,
    pub message: String,
}

/// `s` without its trailing NUL characters (the padding of fixed-size ring slots).
pub open spec fn trim_nul(s: Seq<char>) -> Seq<char>
    decreases s.len(),
{
    if s.len() > 0 && s.last() == '\u{0}' {
        trim_nul(s.drop_last())
    } else {
        s
    }
}

fn trim_nul_string(s: &String) -> (r: String)
    ensures
        r@ == trim_nul(s@),
{
    let v = chars_of(s.as_str());
    let mut n = v.len();
    assert(v@.take(n as int) =~= v@);
    while n > 0 && v[n - 1] == '\u{0}'
        invariant
            n <= v@.len(),
            trim_nul(v@) == trim_nul(v@.take(n as int)),
        decreases n,
    {
        assert(v@.take(n as int).drop_last() =~= v@.take(n - 1));
        n -= 1;
    }
    assert(v@.take(n as int) =~= v@.subrange(0, n as int));
    assert(trim_nul(v@.take(n as int)) == v@.take(n as int)) by {
        if n > 0 {
            assert(v@.take(n as int).last() == v@[n - 1]);
        }
    }
    string_of(&slice(&v, 0, n))
}

/// Log rows from a raw `(timestamp_ms, message)` ring snapshot, in order, each message without
/// its NUL padding.
pub fn entries_from_ring(lines: Vec<(u64, String)>) -> (r: Vec<LogEntry>)
    ensures
        r@.len() == lines@.len(),
        forall|i: int|
            0 <= i < lines@.len() ==> (#[trigger] r@[i]).timestamp_ms == lines@[i].0
                && r@[i].message@ == trim_nul(lines@[i].1@),
{
    let mut out: Vec<LogEntry> = Vec::new();
    let mut i: usize = 0;
    while i < lines.len()
        invariant
            i <= lines@.len(),
            out@.len() == i,
            forall|k: int|
                0 <= k < i ==> (#[trigger] out@[k]).timestamp_ms == lines@[k].0
                    && out@[k].message@ == trim_nul(lines@[k].1@),
        decreases lines.len() - i,
    {
        let message = trim_nul_string(&lines[i].1);
        out.push(LogEntry { timestamp_ms: lines[i].0, message });
        i += 1;
    }
    out
}

// ---------------------------------------------------------------------------------------------
// The module setup form.
// ---------------------------------------------------------------------------------------------

/// The validated per-instance settings.
#[derive(Debug)]
pub struct SetupValues {
    pub name: String,
    pub role: Role,
    pub endpoint: Endpoint,
    /// Optional per-instance timing overrides (ms); `None` falls back to device/app config.
    pub timeout_ms: Option<usize>,
    pub delay_ms: Option<usize>,
    pub interval_ms: Option<usize>,
}

/// The model of `SetupValues`.
pub ghost struct SetupValuesView {
    pub name: Seq<char>,
    pub role: Role,
    pub endpoint: EndpointView,
    pub timeout_ms: Option<usize>,
    pub delay_ms: Option<usize>,
    pub interval_ms: Option<usize>,
}

impl View for SetupValues {
    type V = SetupValuesView;

    open spec fn view(&self) -> SetupValuesView {
        SetupValuesView {
            name: self.name@,
            role: self.role,
            endpoint: self.endpoint@,
            timeout_ms: self.timeout_ms,
            delay_ms: self.delay_ms,
            interval_ms: self.interval_ms,
        }
    }
}

/// The content of the setup dialog's fields: the texts typed and the values selected. The
/// data-bit choices are 8, 7, 6, 5 and the stop-bit choices 1, 2.
#[derive(Debug)]
pub struct SetupForm {
    pub mode: DialogMode,
    pub name: String,
    pub config_path: String,
    pub transport: Transport,
    pub role: Role,
    pub ip: String,
    pub port: String,
    pub path: String,
    pub baud: String,
    pub parity: Parity,
    pub data_bits: u8,
    pub stop_bits: u8,
    pub timeout: String,
    pub delay: String,
    pub interval: String,
}

/// A per-instance timing field: blank is "not overridden", otherwise a whole number of
/// milliseconds.
pub open spec fn spec_parse_ms(input: Seq<char>, label: Seq<char>) -> Result<Option<usize>, Seq<char>> {
    let t = trim(input);
    if t.len() == 0 {
        Ok(Option::None)
    } else {
        match parse_unsigned(t, 10, usize::MAX as int) {
            Some(x) => Ok(Some(x as usize)),
            Option::None => Err(label + " must be a whole number of milliseconds."@),
        }
    }
}

/// The endpoint the form describes, or the first error.
pub open spec fn spec_form_endpoint(f: SetupForm) -> Result<EndpointView, Seq<char>> {
    match f.transport {
        Transport::Tcp => {
            let ip = trim(f.ip@);
            if ip.len() == 0 {
                Err("IP address is required."@)
            } else {
                match parse_unsigned(trim(f.port@), 10, u16::MAX as int) {
                    Option::None => Err("Port must be a number (0-65535)."@),
                    Some(port) => Ok(EndpointView::Tcp { ip, port: port as u16 }),
                }
            }
        },
        Transport::Rtu => {
            let path = trim(f.path@);
            if path.len() == 0 {
                Err("Serial path is required."@)
            } else {
                match parse_unsigned(trim(f.baud@), 10, u32::MAX as int) {
                    Option::None => Err("Baud rate must be a number."@),
                    Some(baud) => Ok(
                        EndpointView::Rtu {
                            path,
                            baud_rate: baud as u32,
                            parity: spec_parity_config(f.parity),
                            data_bits: Some(f.data_bits),
                            stop_bits: Some(f.stop_bits),
                        },
                    ),
                }
            }
        },
    }
}

/// The settings the form describes, or the first error: a name, the endpoint of the selected
/// transport, and (for clients only; servers never poll) the timing overrides.
pub open spec fn spec_setup_values(f: SetupForm) -> Result<SetupValuesView, Seq<char>> {
    let name = trim(f.name@);
    if name.len() == 0 {
        Err("Name is required."@)
    } else {
        match spec_form_endpoint(f) {
            Err(e) => Err(e),
            Ok(endpoint) => if f.role == Role::Client {
                match spec_parse_ms(f.timeout@, "Timeout"@) {
                    Err(e) => Err(e),
                    Ok(timeout_ms) => match spec_parse_ms(f.delay@, "Delay"@) {
                        Err(e) => Err(e),
                        Ok(delay_ms) => match spec_parse_ms(f.interval@, "Interval"@) {
                            Err(e) => Err(e),
                            Ok(interval_ms) => Ok(
                                SetupValuesView {
                                    name,
                                    role: f.role,
                                    endpoint,
                                    timeout_ms,
                                    delay_ms,
                                    interval_ms,
                                },
                            ),
                        },
                    },
                }
            } else {
                Ok(
                    SetupValuesView {
                        name,
                        role: f.role,
                        endpoint,
                        timeout_ms: Option::None,
                        delay_ms: Option::None,
                        interval_ms: Option::None,
                    },
                )
            },
        }
    }
}

fn parse_ms(input: &String, label: &str) -> (r: Result<Option<usize>, String>)
    ensures
        match r {
            Ok(o) => spec_parse_ms(input@, label@) == Ok::<_, Seq<char>>(o),
            Err(e) => spec_parse_ms(input@, label@) == Err::<Option<usize>, _>(e@),
        },
{
    let t = trim_chars(&chars_of(input.as_str()));
    if t.len() == 0 {
        return Ok(Option::None);
    }
    match parse_usize(&t) {
        Some(x) => Ok(Some(x)),
        Option::None => {
            let mut msg = chars_of(label);
            crate::text::append(&mut msg, &chars_of(" must be a whole number of milliseconds."));
            Err(string_of(&msg))
        },
    }
}

/// The trimmed text of a field.
fn trimmed(s: &String) -> (r: String)
    ensures
        r@ == trim(s@),
{
    string_of(&trim_chars(&chars_of(s.as_str())))
}

/// The decimal text of a number.
fn decimal_string(n: u128) -> (r: String)
    ensures
        r@ == decimal(n as nat),
{
    let mut v: Vec<char> = Vec::new();
    push_decimal(&mut v, n);
    assert(v@ =~= decimal(n as nat));
    string_of(&v)
}

/// The data-bit choice `d` selects: itself when offered, else the first choice (8).
pub open spec fn spec_data_bits_choice(d: Option<u8>) -> u8 {
    match d {
        Some(v) => if v == 8 || v == 7 || v == 6 || v == 5 {
            v
        } else {
            8
        },
        Option::None => 8,
    }
}

/// The stop-bit choice `s` selects: itself when offered, else the first choice (1).
pub open spec fn spec_stop_bits_choice(s: Option<u8>) -> u8 {
    match s {
        Some(v) => if v == 1 || v == 2 {
            v
        } else {
            1
        },
        Option::None => 1,
    }
}

/// `f` is the form editing the instance `name` / `role` / `endpoint` with effective timing
/// `timing`: the name and role, the endpoint's fields as texts and selections (an unknown
/// parity reads as none, an unoffered bit count as the first choice), the timing as decimal
/// texts.
pub open spec fn spec_edit_form(
    f: SetupForm,
    name: Seq<char>,
    role: Role,
    endpoint: EndpointView,
    timing: (usize, usize, usize),
) -> bool {
    &&& f.mode == DialogMode::Edit
    &&& f.name@ == name
    &&& f.config_path@.len() == 0
    &&& f.role == role
    &&& f.timeout@ == decimal(timing.0 as nat)
    &&& f.delay@ == decimal(timing.1 as nat)
    &&& f.interval@ == decimal(timing.2 as nat)
    &&& match endpoint {
        EndpointView::Tcp { ip, port } => f.transport == Transport::Tcp && f.ip@ == ip && f.port@
            == decimal(port as nat) && f.path@.len() == 0 && f.baud@.len() == 0 && f.parity
            == Parity::NoParity && f.data_bits == 8 && f.stop_bits == 1,
        EndpointView::Rtu { path, baud_rate, parity, data_bits, stop_bits } => f.transport
            == Transport::Rtu && f.ip@.len() == 0 && f.port@.len() == 0 && f.path@ == path
            && f.baud@ == decimal(baud_rate as nat) && f.parity == spec_parity_from_config(parity)
            && f.data_bits == spec_data_bits_choice(data_bits) && f.stop_bits
            == spec_stop_bits_choice(stop_bits),
        _ => false,
    }
}

impl SetupForm {
    /// A form with every field at its initial value: the given name and mode, TCP, server, no
    /// parity, 8 data bits, 1 stop bit, and the timing inputs prefilled with `timing`
    /// (timeout, delay, interval in ms).
    pub fn build(name: &str, mode: DialogMode, timing: (usize, usize, usize)) -> (r: Self)
        ensures
            r.mode == mode,
            r.name@ == name@,
            r.config_path@.len() == 0,
            r.transport == Transport::Tcp,
            r.role == Role::Server,
            r.ip@.len() == 0,
            r.port@.len() == 0,
            r.path@.len() == 0,
            r.baud@.len() == 0,
            r.parity == Parity::NoParity,
            r.data_bits == 8,
            r.stop_bits == 1,
            r.timeout@ == decimal(timing.0 as nat),
            r.delay@ == decimal(timing.1 as nat),
            r.interval@ == decimal(timing.2 as nat),
    {
        SetupForm {
            mode,
            name: owned(name),
            config_path: String::new(),
            transport: Transport::Tcp,
            role: Role::Server,
            ip: String::new(),
            port: String::new(),
            path: String::new(),
            baud: String::new(),
            parity: Parity::NoParity,
            data_bits: 8,
            stop_bits: 1,
            timeout: decimal_string(timing.0 as u128),
            delay: decimal_string(timing.1 as u128),
            interval: decimal_string(timing.2 as u128),
        }
    }

    /// The form for a new module (`:n`/`:new`): an empty name, the initial fields of
    /// `build`, and the timing inputs prefilled with the global defaults.
    pub fn create(timing: (usize, usize, usize)) -> (r: Self)
        ensures
            r.mode == DialogMode::New,
            r.name@.len() == 0,
            r.config_path@.len() == 0,
            r.transport == Transport::Tcp,
            r.role == Role::Server,
            r.ip@.len() == 0,
            r.port@.len() == 0,
            r.path@.len() == 0,
            r.baud@.len() == 0,
            r.parity == Parity::NoParity,
            r.data_bits == 8,
            r.stop_bits == 1,
            r.timeout@ == decimal(timing.0 as nat),
            r.delay@ == decimal(timing.1 as nat),
            r.interval@ == decimal(timing.2 as nat),
    {
        proof {
            reveal_strlit("");
        }
        Self::build("", DialogMode::New, timing)
    }

    /// The form editing an existing TCP or serial instance (`:e`), prefilled from it; `timing`
    /// is its effective timeout/delay/interval.
    pub fn edit(name: &str, role: Role, endpoint: &Endpoint, timing: (usize, usize, usize)) -> (r:
        Self)
        requires
            endpoint is Tcp || endpoint is Rtu,
        ensures
            spec_edit_form(r, name@, role, endpoint@, timing),
    {
        let mut form = Self::build(name, DialogMode::Edit, timing);
        form.role = role;
        match endpoint {
            Endpoint::Tcp { ip, port } => {
                form.transport = Transport::Tcp;
                form.ip = ip.clone();
                form.port = decimal_string(*port as u128);
            },
            Endpoint::Rtu { path, baud_rate, parity, data_bits, stop_bits } => {
                form.transport = Transport::Rtu;
                form.path = path.clone();
                form.baud = decimal_string(*baud_rate as u128);
                form.parity = Parity::from_config(
                    match parity {
                        Some(p) => Some(p.as_str()),
                        Option::None => Option::None,
                    },
                );
                let data_choices = vec![U8Choice(8), U8Choice(7), U8Choice(6), U8Choice(5)];
                match select_u8(&data_choices, *data_bits) {
                    Some(i) => {
                        form.data_bits = data_choices[i].0;
                    },
                    Option::None => {},
                }
                let stop_choices = vec![U8Choice(1), U8Choice(2)];
                match select_u8(&stop_choices, *stop_bits) {
                    Some(i) => {
                        form.stop_bits = stop_choices[i].0;
                    },
                    Option::None => {},
                }
            },
            _ => {},
        }
        form
    }

    /// Validate the form into per-instance settings.
    pub fn values(&self) -> (r: Result<SetupValues, String>)
        ensures
            match r {
                Ok(v) => spec_setup_values(*self) == Ok::<_, Seq<char>>(v@),
                Err(e) => spec_setup_values(*self) == Err::<SetupValuesView, _>(e@),
            },
    {
        let name = trimmed(&self.name);
        if name.as_str().is_empty() {
            return Err(owned("Name is required."));
        }
        let endpoint = match self.transport {
            Transport::Tcp => {
                let ip = trimmed(&self.ip);
                if ip.as_str().is_empty() {
                    return Err(owned("IP address is required."));
                }
                let port = match parse_u16(&trim_chars(&chars_of(self.port.as_str()))) {
                    Some(p) => p,
                    Option::None => return Err(owned("Port must be a number (0-65535).")),
                };
                Endpoint::Tcp { ip, port }
            },
            Transport::Rtu => {
                let path = trimmed(&self.path);
                if path.as_str().is_empty() {
                    return Err(owned("Serial path is required."));
                }
                let baud_rate = match parse_u32(&trim_chars(&chars_of(self.baud.as_str()))) {
                    Some(b) => b,
                    Option::None => return Err(owned("Baud rate must be a number.")),
                };
                Endpoint::Rtu {
                    path,
                    baud_rate,
                    parity: self.parity.to_config(),
                    data_bits: Some(self.data_bits),
                    stop_bits: Some(self.stop_bits),
                }
            },
        };
        let (timeout_ms, delay_ms, interval_ms) = if self.role == Role::Client {
            let t = match parse_ms(&self.timeout, "Timeout") {
                Ok(t) => t,
                Err(e) => return Err(e),
            };
            let d = match parse_ms(&self.delay, "Delay") {
                Ok(d) => d,
                Err(e) => return Err(e),
            };
            let i = match parse_ms(&self.interval, "Interval") {
                Ok(i) => i,
                Err(e) => return Err(e),
            };
            (t, d, i)
        } else {
            (Option::None, Option::None, Option::None)
        };
        Ok(SetupValues { name, role: self.role, endpoint, timeout_ms, delay_ms, interval_ms })
    }
}

/// Decimal digits carry no surrounding whitespace.
pub proof fn lemma_trim_decimal(n: nat)
    ensures
        trim(decimal(n)) == decimal(n),
{
    crate::num::lemma_decimal_digits(n);
    let d = decimal(n);
    assert(crate::num::digit_value(d[0], 10) >= 0);
    assert(crate::num::digit_value(d[d.len() - 1], 10) >= 0);
    assert(crate::text::lead_ws(d) == 0);
    assert(crate::text::trim_start(d) =~= d);
    assert(d.last() == d[d.len() - 1]);
    assert(crate::text::trail_ws(d) == 0);
    assert(trim(d) =~= d);
}

/// The timing overrides confirming an untouched edit form gives: the effective timing for a
/// client, nothing for a server.
pub open spec fn spec_edit_timing(role: Role, t: usize) -> Option<usize> {
    if role == Role::Client {
        Some(t)
    } else {
        Option::None
    }
}

/// The endpoint confirming an untouched edit form gives: the instance's own, with the parity
/// spelled as the form spells it and the bit counts as selected.
pub open spec fn spec_edit_endpoint(endpoint: EndpointView) -> EndpointView {
    match endpoint {
        EndpointView::Rtu { path, baud_rate, parity, data_bits, stop_bits } => EndpointView::Rtu {
            path,
            baud_rate,
            parity: spec_parity_config(spec_parity_from_config(parity)),
            data_bits: Some(spec_data_bits_choice(data_bits)),
            stop_bits: Some(spec_stop_bits_choice(stop_bits)),
        },
        _ => endpoint,
    }
}

/// Confirming the form that edits an instance, untouched, gives back that instance's
/// settings (for a name and an address or serial path without surrounding whitespace).
pub proof fn lemma_edit_form_round_trip(
    f: SetupForm,
    name: Seq<char>,
    role: Role,
    endpoint: EndpointView,
    timing: (usize, usize, usize),
)
    requires
        spec_edit_form(f, name, role, endpoint, timing),
        name.len() > 0,
        trim(name) == name,
        match endpoint {
            EndpointView::Tcp { ip, .. } => ip.len() > 0 && trim(ip) == ip,
            EndpointView::Rtu { path, .. } => path.len() > 0 && trim(path) == path,
            _ => false,
        },
    ensures
        spec_setup_values(f) == Ok::<_, Seq<char>>(
            SetupValuesView {
                name,
                role,
                endpoint: spec_edit_endpoint(endpoint),
                timeout_ms: spec_edit_timing(role, timing.0),
                delay_ms: spec_edit_timing(role, timing.1),
                interval_ms: spec_edit_timing(role, timing.2),
            },
        ),
{
    lemma_trim_decimal(timing.0 as nat);
    lemma_trim_decimal(timing.1 as nat);
    lemma_trim_decimal(timing.2 as nat);
    crate::num::lemma_decimal_digits(timing.0 as nat);
    crate::num::lemma_decimal_digits(timing.1 as nat);
    crate::num::lemma_decimal_digits(timing.2 as nat);
    crate::num::lemma_decimal_parses(timing.0 as nat, usize::MAX as int);
    crate::num::lemma_decimal_parses(timing.1 as nat, usize::MAX as int);
    crate::num::lemma_decimal_parses(timing.2 as nat, usize::MAX as int);
    match endpoint {
        EndpointView::Tcp { ip, port } => {
            lemma_trim_decimal(port as nat);
            crate::num::lemma_decimal_parses(port as nat, u16::MAX as int);
        },
        EndpointView::Rtu { path, baud_rate, .. } => {
            lemma_trim_decimal(baud_rate as nat);
            crate::num::lemma_decimal_parses(baud_rate as nat, u32::MAX as int);
        },
        _ => {},
    }
}

/// Where the device config of a confirmed setup form comes from.
#[derive(Debug)]
pub enum DeviceSource {
    /// Edit mode: the instance keeps its device config.
    Existing,
    /// New mode without a config path: an empty device config (named `<new>`).
    Empty,
    /// New mode: load the device config at this path.
    Load(String),
}

impl SetupForm {
    /// Validate the form, and say where the device config comes from: in New mode the
    /// (trimmed) config path, when one is given, is loaded by the caller.
    pub fn resolve(&self) -> (r: Result<(SetupValues, DeviceSource), String>)
        ensures
            match r {
                Ok((v, d)) => spec_setup_values(*self) == Ok::<_, Seq<char>>(v@) && match d {
                    DeviceSource::Existing => self.mode == DialogMode::Edit,
                    DeviceSource::Empty => self.mode == DialogMode::New && trim(
                        self.config_path@,
                    ).len() == 0,
                    DeviceSource::Load(p) => self.mode == DialogMode::New && trim(
                        self.config_path@,
                    ).len() > 0 && p@ == trim(self.config_path@),
                },
                Err(e) => spec_setup_values(*self) == Err::<SetupValuesView, _>(e@),
            },
    {
        let values = match self.values() {
            Ok(v) => v,
            Err(e) => return Err(e),
        };
        let device = match self.mode {
            DialogMode::Edit => DeviceSource::Existing,
            DialogMode::New => {
                let path = trimmed(&self.config_path);
                if path.as_str().is_empty() {
                    DeviceSource::Empty
                } else {
                    DeviceSource::Load(path)
                }
            },
        };
        Ok((values, device))
    }
}

// ---------------------------------------------------------------------------------------------
// Register edit dialogs: the choices of their selections.
// ---------------------------------------------------------------------------------------------

/// The register kinds the edit dialogs offer, in their order.
pub open spec fn kind_options() -> Seq<RegKind> {
    seq![RegKind::Coil, RegKind::DiscreteInput, RegKind::HoldingRegister, RegKind::InputRegister]
}

/// The position of `kind` among the kind choices.
pub fn kind_index(kind: RegKind) -> (r: usize)
    ensures
        r < kind_options().len(),
        kind_options()[r as int] == kind,
{
    match kind {
        RegKind::Coil => 0,
        RegKind::DiscreteInput => 1,
        RegKind::HoldingRegister => 2,
        RegKind::InputRegister => 3,
    }
}

/// The label of a register kind choice.
pub fn kind_label(kind: RegKind) -> (r: String)
    ensures
        r@ == match kind {
            RegKind::Coil => "Coil"@,
            RegKind::DiscreteInput => "Discrete Input"@,
            RegKind::HoldingRegister => "Holding Register"@,
            RegKind::InputRegister => "Input Register"@,
        },
{
    match kind {
        RegKind::Coil => owned("Coil"),
        RegKind::DiscreteInput => owned("Discrete Input"),
        RegKind::HoldingRegister => owned("Holding Register"),
        RegKind::InputRegister => owned("Input Register"),
    }
}

/// The numeric formats the edit dialogs offer, in their order.
pub open spec fn format_options() -> Seq<ValueType> {
    seq![
        ValueType::U8,
        ValueType::U16,
        ValueType::U32,
        ValueType::U64,
        ValueType::U128,
        ValueType::I8,
        ValueType::I16,
        ValueType::I32,
        ValueType::I64,
        ValueType::I128,
        ValueType::F32,
        ValueType::F64,
    ]
}

/// The position of a numeric format among the format choices; text (`Ascii`) is not among
/// them and selects the first.
pub fn format_index(t: ValueType) -> (r: usize)
    ensures
        r < format_options().len(),
        t != ValueType::Ascii ==> format_options()[r as int] == t,
        t == ValueType::Ascii ==> r == 0,
{
    match t {
        ValueType::U8 => 0,
        ValueType::U16 => 1,
        ValueType::U32 => 2,
        ValueType::U64 => 3,
        ValueType::U128 => 4,
        ValueType::I8 => 5,
        ValueType::I16 => 6,
        ValueType::I32 => 7,
        ValueType::I64 => 8,
        ValueType::I128 => 9,
        ValueType::F32 => 10,
        ValueType::F64 => 11,
        ValueType::Ascii => 0,
    }
}

/// The label of a value format.
pub fn format_label(t: ValueType) -> (r: String)
    ensures
        r@ == match t {
            ValueType::U8 => "U8"@,
            ValueType::U16 => "U16"@,
            ValueType::U32 => "U32"@,
            ValueType::U64 => "U64"@,
            ValueType::U128 => "U128"@,
            ValueType::I8 => "I8"@,
            ValueType::I16 => "I16"@,
            ValueType::I32 => "I32"@,
            ValueType::I64 => "I64"@,
            ValueType::I128 => "I128"@,
            ValueType::F32 => "F32"@,
            ValueType::F64 => "F64"@,
            ValueType::Ascii => "ASCII"@,
        },
{
    match t {
        ValueType::U8 => owned("U8"),
        ValueType::U16 => owned("U16"),
        ValueType::U32 => owned("U32"),
        ValueType::U64 => owned("U64"),
        ValueType::U128 => owned("U128"),
        ValueType::I8 => owned("I8"),
        ValueType::I16 => owned("I16"),
        ValueType::I32 => owned("I32"),
        ValueType::I64 => owned("I64"),
        ValueType::I128 => owned("I128"),
        ValueType::F32 => owned("F32"),
        ValueType::F64 => owned("F64"),
        ValueType::Ascii => owned("ASCII"),
    }
}

/// The byte orders the edit dialogs offer, in their order.
pub open spec fn endian_options() -> Seq<EndianCfg> {
    seq![EndianCfg::Big, EndianCfg::Little]
}

/// The position of a byte order among the byte-order choices.
pub fn endian_index(e: EndianCfg) -> (r: usize)
    ensures
        r < endian_options().len(),
        endian_options()[r as int] == e,
{
    match e {
        EndianCfg::Big => 0,
        EndianCfg::Little => 1,
    }
}

/// The label of a byte order.
pub fn endian_label(e: EndianCfg) -> (r: String)
    ensures
        r@ == match e {
            EndianCfg::Big => "Big"@,
            EndianCfg::Little => "Little"@,
        },
{
    match e {
        EndianCfg::Big => owned("Big"),
        EndianCfg::Little => owned("Little"),
    }
}

/// The text alignments the edit dialogs offer, in their order.
pub open spec fn alignment_options() -> Seq<AlignmentCfg> {
    seq![AlignmentCfg::Right, AlignmentCfg::Left]
}

/// The position of a text alignment among the alignment choices.
pub fn alignment_index(a: AlignmentCfg) -> (r: usize)
    ensures
        r < alignment_options().len(),
        alignment_options()[r as int] == a,
{
    match a {
        AlignmentCfg::Right => 0,
        AlignmentCfg::Left => 1,
    }
}

/// The label of a text alignment.
pub fn alignment_label(a: AlignmentCfg) -> (r: String)
    ensures
        r@ == match a {
            AlignmentCfg::Right => "Right"@,
            AlignmentCfg::Left => "Left"@,
        },
{
    match a {
        AlignmentCfg::Right => owned("Right"),
        AlignmentCfg::Left => owned("Left"),
    }
}

// ---------------------------------------------------------------------------------------------
// Name uniqueness on confirm.
// ---------------------------------------------------------------------------------------------

/// Some entry of `names` is `name`.
pub open spec fn name_taken(names: Seq<String>, name: Seq<char>) -> bool {
    exists|i: int| 0 <= i < names.len() && (#[trigger] names[i])@ == name
}

fn contains_name(names: &Vec<String>, name: &Vec<char>) -> (r: bool)
    ensures
        r == name_taken(names@, name@),
{
    let mut i: usize = 0;
    while i < names.len()
        invariant
            i <= names@.len(),
            forall|k: int| 0 <= k < i ==> (#[trigger] names@[k])@ != name@,
        decreases names.len() - i,
    {
        if same(&chars_of(names[i].as_str()), name) {
            return true;
        }
        i += 1;
    }
    false
}

/// The error an edit or add dialog shows instead of applying when the register name it
/// confirms is already another register's: on an edit (`original` is the edited register's
/// current name, `None` when no row is selected) only a changed name is checked; on an add
/// (`original` is `None` and `adding`) the name is always checked. `registers` are the
/// device's register names.
pub fn register_name_error(name: &str, original: Option<&str>, adding: bool, registers: &Vec<String>) -> (r:
    Option<String>)
    ensures
        ({
            let checked = if adding {
                true
            } else {
                match original {
                    Some(o) => o@ != name@,
                    None => false,
                }
            };
            if checked && name_taken(registers@, name@) {
                r matches Some(m) && m@ == "Name '"@ + name@ + "' already in use"@
            } else {
                r is None
            }
        }),
{
    let n = chars_of(name);
    let checked = if adding {
        true
    } else {
        match original {
            Some(o) => !same(&chars_of(o), &n),
            None => false,
        }
    };
    if checked && contains_name(registers, &n) {
        let mut m = chars_of("Name '");
        crate::text::append(&mut m, &n);
        crate::text::append(&mut m, &chars_of("' already in use"));
        Some(string_of(&m))
    } else {
        None
    }
}

/// The message logged instead of creating a tab whose name another tab already has.
pub fn tab_name_error(name: &str, tabs: &Vec<String>) -> (r: Option<String>)
    ensures
        name_taken(tabs@, name@) ==> (r matches Some(m) && m@ == "Name '"@ + name@
            + "' already in use by another tab"@),
        !name_taken(tabs@, name@) ==> r is None,
{
    let n = chars_of(name);
    if contains_name(tabs, &n) {
        let mut m = chars_of("Name '");
        crate::text::append(&mut m, &n);
        crate::text::append(&mut m, &chars_of("' already in use by another tab"));
        Some(string_of(&m))
    } else {
        None
    }
}

// ---------------------------------------------------------------------------------------------
// Applying confirmed setup values.
// ---------------------------------------------------------------------------------------------

/// The instance a confirmed new-module dialog creates: the dialog's name, role, endpoint and
/// timing overrides, with the device config at `device_path`.
pub fn spec_from_setup(values: SetupValues, device_path: String) -> (r: ModuleSpec)
    ensures
        r@ == (ModuleSpecView {
            name: values@.name,
            device: device_path@,
            role: values@.role,
            endpoint: values@.endpoint,
            timeout_ms: values@.timeout_ms,
            delay_ms: values@.delay_ms,
            interval_ms: values@.interval_ms,
        }),
{
    ModuleSpec {
        name: values.name,
        device: device_path,
        role: values.role,
        endpoint: values.endpoint,
        timeout_ms: values.timeout_ms,
        delay_ms: values.delay_ms,
        interval_ms: values.interval_ms,
    }
}

/// Apply a confirmed setup dialog to an existing instance: it takes the dialog's name, role,
/// endpoint and timing overrides, and keeps its device config.
pub fn apply_setup(spec: &mut ModuleSpec, values: SetupValues)
    ensures
        final(spec)@ == (ModuleSpecView {
            name: values@.name,
            device: old(spec)@.device,
            role: values@.role,
            endpoint: values@.endpoint,
            timeout_ms: values@.timeout_ms,
            delay_ms: values@.delay_ms,
            interval_ms: values@.interval_ms,
        }),
{
    spec.name = values.name;
    spec.role = values.role;
    spec.endpoint = values.endpoint;
    spec.timeout_ms = values.timeout_ms;
    spec.delay_ms = values.delay_ms;
    spec.interval_ms = values.interval_ms;
}

// ---------------------------------------------------------------------------------------------
// Deleting a named value in the selection edit dialog.
// ---------------------------------------------------------------------------------------------

/// The selection after removing the entry at `sel` from a list that had `len` entries: the
/// same position, or the new last one, or 0 for an emptied list.
pub open spec fn sel_after_remove(sel: int, len: int) -> int {
    if len - 1 == 0 {
        0
    } else if sel >= len - 1 {
        len - 2
    } else {
        sel
    }
}

/// The default-value selection after removing the named value at `sel` (the default list
/// holds a "no default" entry at position 0, so the value sits at `sel + 1` there): choosing
/// the removed value resets to "no default", choosing a later one shifts down with it.
pub open spec fn default_sel_after_remove(default_sel: int, sel: int, defaults_len: int) -> int {
    if sel + 1 < defaults_len && default_sel >= sel + 1 {
        if default_sel == sel + 1 {
            0
        } else {
            default_sel - 1
        }
    } else {
        default_sel
    }
}

/// Delete the selected named value `values[sel]` and its entry `defaults[sel + 1]` in the
/// default-value list (when it has one), returning the new value selection and default
/// selection. An empty list is left alone.
pub fn delete_named_value<V, D>(values: &mut Vec<V>, sel: usize, defaults: &mut Vec<D>, default_sel: usize) -> (r: (usize, usize))
    requires
        old(values)@.len() > 0 ==> sel < old(values)@.len(),
    ensures
        old(values)@.len() == 0 ==> final(values)@ == old(values)@ && final(defaults)@ == old(
            defaults,
        )@ && r == (sel, default_sel),
        old(values)@.len() > 0 ==> {
            &&& final(values)@ == old(values)@.remove(sel as int)
            &&& final(defaults)@ == (if sel + 1 < old(defaults)@.len() {
                old(defaults)@.remove(sel + 1)
            } else {
                old(defaults)@
            })
            &&& r.0 == sel_after_remove(sel as int, old(values)@.len() as int)
            &&& r.1 == default_sel_after_remove(
                default_sel as int,
                sel as int,
                old(defaults)@.len() as int,
            )
        },
{
    if values.len() == 0 {
        return (sel, default_sel);
    }
    values.remove(sel);
    let new_sel = if values.len() == 0 {
        0
    } else if sel >= values.len() {
        values.len() - 1
    } else {
        sel
    };
    let mut new_default = default_sel;
    if sel < defaults.len() && sel + 1 < defaults.len() {
        defaults.remove(sel + 1);
        if default_sel >= sel + 1 {
            new_default = if default_sel == sel + 1 {
                0
            } else {
                default_sel - 1
            };
        }
    }
    (new_sel, new_default)
}

/// Add a named value at the end of the list, selected, with its entry at the end of the
/// default-value list. Returns the new selection.
pub fn accept_named_value<V, D>(values: &mut Vec<V>, defaults: &mut Vec<D>, value: V, default_entry: D) -> (sel: usize)
    ensures
        final(values)@ == old(values)@.push(value),
        final(defaults)@ == old(defaults)@.push(default_entry),
        sel == old(values)@.len(),
{
    values.push(value);
    defaults.push(default_entry);
    values.len() - 1
}

/// Deleting the named value just added (it is selected) gives back both lists as they were,
/// and keeps a default that chose an older value.
pub proof fn lemma_delete_undoes_accept<V, D>(
    values: Seq<V>,
    defaults: Seq<D>,
    value: V,
    default_entry: D,
    default_sel: int,
)
    requires
        defaults.len() == values.len() + 1,
        0 <= default_sel < defaults.len(),
    ensures
        values.push(value).remove(values.len() as int) == values,
        defaults.push(default_entry).remove(values.len() + 1int) == defaults,
        default_sel_after_remove(default_sel, values.len() as int, defaults.len() + 1int)
            == default_sel,
{
    assert(values.push(value).remove(values.len() as int) =~= values);
    assert(defaults.push(default_entry).remove(values.len() + 1int) =~= defaults);
}

/// After deleting a named value, the value selection is on an entry of the shortened list (or
/// 0 when it is empty), and a default that chose another value still chooses that same value.
pub proof fn lemma_delete_keeps_selections<V, D>(
    values: Seq<V>,
    sel: int,
    defaults: Seq<D>,
    default_sel: int,
)
    requires
        0 <= sel < values.len(),
        0 <= default_sel < defaults.len(),
    ensures
        ({
            let vs = values.remove(sel);
            let ns = sel_after_remove(sel, values.len() as int);
            vs.len() == 0 || 0 <= ns < vs.len()
        }),
        ({
            let ds = if sel + 1 < defaults.len() {
                defaults.remove(sel + 1)
            } else {
                defaults
            };
            let nd = default_sel_after_remove(default_sel, sel, defaults.len() as int);
            &&& 0 <= nd < ds.len()
            &&& default_sel != sel + 1 ==> ds[nd] == defaults[default_sel]
        }),
{
}

} // verus!
