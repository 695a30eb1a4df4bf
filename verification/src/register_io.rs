//! How a register meets module memory and the wire: the memory table that backs each register
//! kind, the read function code a kind is configured by, the memory binding of a fixed-address
//! register, the write command a client sends for it, and what `:set <register> <value>` does.
use vstd::prelude::*;

use crate::config::{AccessCfg, MemRange, RegKind, Role};
use crate::num::{decimal, push_decimal};
use crate::text::{append, chars_of, join, string_of};

verus! {

/// The memory table backing a register: single bits or 16-bit words.
#[derive(Debug, Clone, Copy, PartialEq, Eq, Structural)]
pub enum MemType {
    Coil,
    Register,
}

/// Coils and discrete inputs live in bit memory, holding and input registers in word memory.
pub open spec fn spec_mem_type(kind: RegKind) -> MemType {
    match kind {
        RegKind::Coil | RegKind::DiscreteInput => MemType::Coil,
        RegKind::HoldingRegister | RegKind::InputRegister => MemType::Register,
    }
}

/// The memory table backing registers of `kind`.
pub fn mem_type(kind: RegKind) -> (r: MemType)
    ensures
        r == spec_mem_type(kind),
{
    match kind {
        RegKind::Coil | RegKind::DiscreteInput => MemType::Coil,
        RegKind::HoldingRegister | RegKind::InputRegister => MemType::Register,
    }
}

/// The register kind a configured read function code selects: 1 coils, 2 discrete inputs,
/// 4 holding registers, anything else input registers.
pub open spec fn spec_kind_of_read_code(code: u8) -> RegKind {
    if code == 1 {
        RegKind::Coil
    } else if code == 2 {
        RegKind::DiscreteInput
    } else if code == 4 {
        RegKind::HoldingRegister
    } else {
        RegKind::InputRegister
    }
}

/// The register kind a configured read function code selects.
pub fn kind_of_read_code(code: u8) -> (r: RegKind)
    ensures
        r == spec_kind_of_read_code(code),
{
    match code {
        1 => RegKind::Coil,
        2 => RegKind::DiscreteInput,
        4 => RegKind::HoldingRegister,
        _ => RegKind::InputRegister,
    }
}

/// The read function code stored in the config for a register of `kind`.
pub open spec fn spec_read_code_of(kind: RegKind) -> u8 {
    match kind {
        RegKind::Coil => 1,
        RegKind::DiscreteInput => 2,
        RegKind::HoldingRegister => 4,
        RegKind::InputRegister => 3,
    }
}

/// The read function code stored in the config for a register of `kind`.
pub fn read_code_of(kind: RegKind) -> (r: u8)
    ensures
        r == spec_read_code_of(kind),
{
    match kind {
        RegKind::Coil => 1,
        RegKind::DiscreteInput => 2,
        RegKind::HoldingRegister => 4,
        RegKind::InputRegister => 3,
    }
}

/// Saving an edited register's kind as a read code and loading it back gives the same kind;
/// each of the four Modbus read codes survives the opposite trip.
pub proof fn lemma_read_code_round_trip(kind: RegKind, code: u8)
    ensures
        spec_kind_of_read_code(spec_read_code_of(kind)) == kind,
        1 <= code <= 4 ==> spec_read_code_of(spec_kind_of_read_code(code)) == code,
{
}

/// The register kinds as the config and module memory know them: read code 1 selects coils, 2
/// discrete inputs, 4 holding registers and every other code input registers; coils and
/// discrete inputs live in bit memory, holding and input registers in word memory; and only
/// coils and holding registers are writable.
pub proof fn lemma_kind_tables(kind: RegKind, code: u8)
    ensures
        spec_kind_of_read_code(1) == RegKind::Coil,
        spec_kind_of_read_code(2) == RegKind::DiscreteInput,
        spec_kind_of_read_code(4) == RegKind::HoldingRegister,
        code != 1 && code != 2 && code != 4 ==> spec_kind_of_read_code(code) == RegKind::InputRegister,
        (spec_mem_type(kind) == MemType::Coil) <==> (kind == RegKind::Coil || kind
            == RegKind::DiscreteInput),
        (spec_mem_access(kind) is ReadWrite) <==> (kind == RegKind::Coil || kind
            == RegKind::HoldingRegister),
        spec_mem_access(kind) == MemAccess::ReadWrite(spec_mem_type(kind)) || spec_mem_access(kind)
            == MemAccess::Read(spec_mem_type(kind)),
{
}

/// The address a register definition gives a register: its configured address, unless it is
/// marked virtual or has none (then `None`, a virtual register).
pub open spec fn spec_def_address(is_virtual: bool, address: Option<u16>) -> Option<u16> {
    if is_virtual {
        None
    } else {
        address
    }
}

/// The address a register definition gives a register (`None` for a virtual one).
pub fn def_address(is_virtual: bool, address: Option<u16>) -> (r: Option<u16>)
    ensures
        r == spec_def_address(is_virtual, address),
{
    if is_virtual {
        None
    } else {
        address
    }
}

/// The definition fields `(address, is_virtual)` saved for a register at `address` (`None`
/// for a virtual register).
pub fn address_fields(address: Option<u16>) -> (r: (Option<u16>, bool))
    ensures
        r == (address, address is None),
{
    match address {
        Some(a) => (Some(a), false),
        None => (None, true),
    }
}

/// Saving an edited register's address into its definition and reading the definition back
/// gives the same address.
pub proof fn lemma_address_round_trip(address: Option<u16>)
    ensures
        spec_def_address(address is None, address) == address,
{
}

/// The memory range a register definition occupies: `width` words (or bits) from its
/// address, or `None` for a virtual register.
pub fn def_mem_range(is_virtual: bool, address: Option<u16>, width: usize) -> (r: Option<MemRange>)
    ensures
        r == (match spec_def_address(is_virtual, address) {
            Some(a) => Some(MemRange { start: a as usize, len: width }),
            None => None,
        }),
{
    match def_address(is_virtual, address) {
        Some(a) => Some(MemRange { start: a as usize, len: width }),
        None => None,
    }
}

/// How module memory holds a register: writable by the peer (coils, holding registers) or
/// only readable (discrete inputs, input registers), in the table of its memory type.
#[derive(Debug, Clone, Copy, PartialEq, Eq, Structural)]
pub enum MemAccess {
    ReadWrite(MemType),
    Read(MemType),
}

/// Where a fixed-address register lives in module memory: its access, its key (unit id and
/// kind) and its address range.
#[derive(Debug, Clone, Copy, PartialEq, Eq, Structural)]
pub struct MemBinding {
    pub access: MemAccess,
    pub slave: u8,
    pub kind: RegKind,
    pub range: MemRange,
}

/// The access of a register of `kind` in module memory.
pub open spec fn spec_mem_access(kind: RegKind) -> MemAccess {
    match kind {
        RegKind::Coil | RegKind::HoldingRegister => MemAccess::ReadWrite(spec_mem_type(kind)),
        RegKind::DiscreteInput | RegKind::InputRegister => MemAccess::Read(spec_mem_type(kind)),
    }
}

/// The memory binding of a register of `kind` on unit `slave`, `width` words wide, at
/// `address` (`None` for a virtual register, which has none).
pub fn mem_binding(kind: RegKind, slave: u8, address: Option<u16>, width: usize) -> (r: Option<
    MemBinding,
>)
    ensures
        match address {
            None => r is None,
            Some(a) => r == Some(
                MemBinding {
                    access: spec_mem_access(kind),
                    slave,
                    kind,
                    range: MemRange { start: a as usize, len: width },
                },
            ),
        },
{
    let a = match address {
        None => return None,
        Some(a) => a,
    };
    let ty = mem_type(kind);
    let access = match kind {
        RegKind::Coil | RegKind::HoldingRegister => MemAccess::ReadWrite(ty),
        RegKind::DiscreteInput | RegKind::InputRegister => MemAccess::Read(ty),
    };
    Some(MemBinding { access, slave, kind, range: MemRange { start: a as usize, len: width } })
}

/// A Modbus write request: unit id, start address and the data.
#[derive(Debug, Clone, PartialEq, Eq)]
pub enum WriteCommand {
    WriteSingleCoil(u8, u16, bool),
    WriteMultipleCoils(u8, u16, Vec<bool>),
    WriteSingleRegister(u8, u16, u16),
    WriteMultipleRegister(u8, u16, Vec<u16>),
}

/// The write request for raw words `raw` of a register of `kind`: bit kinds write coils (a
/// word is on when nonzero), word kinds write registers; one word uses the single-item
/// request, any other count the multiple-item one.
pub open spec fn write_command_is(
    r: WriteCommand,
    kind: RegKind,
    slave: u8,
    addr: u16,
    raw: Seq<u16>,
) -> bool {
    match spec_mem_type(kind) {
        MemType::Coil => if raw.len() == 1 {
            r == WriteCommand::WriteSingleCoil(slave, addr, raw[0] != 0)
        } else {
            r matches WriteCommand::WriteMultipleCoils(s, a, v) && s == slave && a == addr && v@
                == raw.map_values(|w: u16| w != 0)
        },
        MemType::Register => if raw.len() == 1 {
            r == WriteCommand::WriteSingleRegister(slave, addr, raw[0])
        } else {
            r matches WriteCommand::WriteMultipleRegister(s, a, v) && s == slave && a == addr
                && v@ == raw
        },
    }
}

/// Build the write request a client sends for raw words `raw` of a register of `kind`.
pub fn write_command(kind: RegKind, slave: u8, addr: u16, raw: &Vec<u16>) -> (r: WriteCommand)
    ensures
        write_command_is(r, kind, slave, addr, raw@),
{
    match mem_type(kind) {
        MemType::Coil => {
            if raw.len() == 1 {
                WriteCommand::WriteSingleCoil(slave, addr, raw[0] != 0)
            } else {
                let mut bits: Vec<bool> = Vec::new();
                let mut i: usize = 0;
                while i < raw.len()
                    invariant
                        i <= raw@.len(),
                        bits@ == raw@.take(i as int).map_values(|w: u16| w != 0),
                    decreases raw.len() - i,
                {
                    bits.push(raw[i] != 0);
                    i += 1;
                    assert(bits@ =~= raw@.take(i as int).map_values(|w: u16| w != 0));
                }
                assert(raw@.take(i as int) =~= raw@);
                WriteCommand::WriteMultipleCoils(slave, addr, bits)
            }
        },
        MemType::Register => {
            if raw.len() == 1 {
                WriteCommand::WriteSingleRegister(slave, addr, raw[0])
            } else {
                WriteCommand::WriteMultipleRegister(slave, addr, raw.clone())
            }
        },
    }
}

// ---------------------------------------------------------------------------------------------
// `:set <register> <value>`.
// ---------------------------------------------------------------------------------------------

/// The register a `:set` names, as the active tab knows it, and the role of that tab.
#[derive(Debug, Clone, Copy, PartialEq, Eq, Structural)]
pub struct SetTarget {
    pub kind: RegKind,
    /// `None` for a virtual register.
    pub address: Option<u16>,
    pub slave: u8,
    pub access: AccessCfg,
    pub role: Role,
}

/// The first step of `:set`.
#[derive(Debug, Clone, PartialEq, Eq)]
pub enum SetPlan {
    /// Log this message and stop.
    Report(String),
    /// Store the value in the server's virtual store, then log this message.
    SetVirtual(String),
    /// Encode the value with the register's format, then take the write step for this address.
    Encode(u16),
}

/// The first step of `:set name value`: an unknown register is reported; a virtual register
/// is set in a server's virtual store and refused on a client; a fixed-address register goes
/// on to encoding.
pub fn plan_set_value(target: Option<SetTarget>, name: &str, value: &str) -> (r: SetPlan)
    ensures
        match target {
            None => r matches SetPlan::Report(m) && m@ == ":set unknown register '"@ + name@
                + "'"@,
            Some(t) => match t.address {
                None => match t.role {
                    Role::Server => r matches SetPlan::SetVirtual(m) && m@ == "set "@ + name@
                        + " = "@ + value@ + " (virtual)"@,
                    Role::Client => r matches SetPlan::Report(m) && m@ == ":set '"@ + name@
                        + "' is virtual — only writable on servers"@,
                },
                Some(a) => r == SetPlan::Encode(a),
            },
        },
{
    let n = chars_of(name);
    match target {
        None => {
            let mut m = chars_of(":set unknown register '");
            append(&mut m, &n);
            append(&mut m, &chars_of("'"));
            SetPlan::Report(string_of(&m))
        },
        Some(t) => match t.address {
            None => match t.role {
                Role::Server => {
                    let mut m = chars_of("set ");
                    append(&mut m, &n);
                    append(&mut m, &chars_of(" = "));
                    append(&mut m, &chars_of(value));
                    append(&mut m, &chars_of(" (virtual)"));
                    SetPlan::SetVirtual(string_of(&m))
                },
                Role::Client => {
                    let mut m = chars_of(":set '");
                    append(&mut m, &n);
                    append(&mut m, &chars_of("' is virtual — only writable on servers"));
                    SetPlan::Report(string_of(&m))
                },
            },
            Some(a) => SetPlan::Encode(a),
        },
    }
}

/// The write step of `:set`.
#[derive(Debug, Clone, PartialEq, Eq)]
pub enum SetWrite {
    /// Log this message and stop.
    Report(String),
    /// Write the words into the server's own memory at this binding.
    WriteLocal { slave: u8, kind: RegKind, range: MemRange, raw: Vec<u16> },
    /// Send this request to the remote device; once it succeeds, also write the words into
    /// local memory when `mirror` (a write-only register is never polled back).
    Send { command: WriteCommand, mirror: bool },
}

/// The write step of `:set` for the register of `target` at `addr`, given what encoding the
/// value with the register's format gave: an encoding error is reported; a server writes its
/// own memory; a client sends the write request for the words.
pub fn plan_set_write(target: SetTarget, addr: u16, encoded: Result<Vec<u16>, String>) -> (r:
    SetWrite)
    ensures
        match encoded {
            Err(e) => r matches SetWrite::Report(m) && m@ == ":set encode error: "@ + e@,
            Ok(raw) => match target.role {
                Role::Server => r == (SetWrite::WriteLocal {
                    slave: target.slave,
                    kind: target.kind,
                    range: MemRange { start: addr as usize, len: raw@.len() as usize },
                    raw,
                }),
                Role::Client => r matches SetWrite::Send { command, mirror } && write_command_is(
                    command,
                    target.kind,
                    target.slave,
                    addr,
                    raw@,
                ) && mirror == (target.access == AccessCfg::WriteOnly),
            },
        },
{
    match encoded {
        Err(e) => {
            let mut m = chars_of(":set encode error: ");
            append(&mut m, &chars_of(e.as_str()));
            SetWrite::Report(string_of(&m))
        },
        Ok(raw) => match target.role {
            Role::Server => {
                let len = raw.len();
                SetWrite::WriteLocal {
                    slave: target.slave,
                    kind: target.kind,
                    range: MemRange { start: addr as usize, len },
                    raw,
                }
            },
            Role::Client => {
                let command = write_command(target.kind, target.slave, addr, &raw);
                let mirror = match target.access {
                    AccessCfg::WriteOnly => true,
                    _ => false,
                };
                SetWrite::Send { command, mirror }
            },
        },
    }
}

/// The decimal words of `raw`.
pub open spec fn decimal_words(raw: Seq<u16>) -> Seq<Seq<char>> {
    Seq::new(raw.len(), |i: int| decimal(raw[i] as nat))
}

/// `format!("{raw:?}")` of register words: `[1, 2, 3]`.
pub open spec fn debug_words(raw: Seq<u16>) -> Seq<char> {
    seq!['['] + join(decimal_words(raw), seq![',', ' ']) + seq![']']
}

fn push_debug_words(out: &mut Vec<char>, raw: &Vec<u16>)
    ensures
        final(out)@ == old(out)@ + debug_words(raw@),
{
    let ghost o = old(out)@;
    out.push('[');
    let mut i: usize = 0;
    assert(decimal_words(raw@).take(0) =~= Seq::<Seq<char>>::empty());
    while i < raw.len()
        invariant
            i <= raw@.len(),
            out@ == o + seq!['['] + join(decimal_words(raw@).take(i as int), seq![',', ' ']),
        decreases raw.len() - i,
    {
        let ghost pre = decimal_words(raw@).take(i as int);
        let ghost nxt = decimal_words(raw@).take(i + 1);
        assert(nxt.drop_last() =~= pre);
        assert(nxt.last() == decimal(raw@[i as int] as nat));
        if i > 0 {
            out.push(',');
            out.push(' ');
        }
        push_decimal(out, raw[i] as u128);
        assert(out@ =~= o + seq!['['] + join(nxt, seq![',', ' ']));
        i += 1;
    }
    assert(decimal_words(raw@).take(i as int) =~= decimal_words(raw@));
    out.push(']');
    assert(out@ =~= o + debug_words(raw@));
}

/// What a server logs after writing `:set name value` into its own memory: the plain report
/// when memory took the words, else why they were rejected.
pub fn local_write_report(name: &str, value: &str, addr: u16, slave: u8, raw: &Vec<u16>, ok: bool) -> (r:
    String)
    ensures
        ok ==> r@ == "set "@ + name@ + " = "@ + value@,
        !ok ==> r@ == ":set '"@ + name@ + "' rejected (addr "@ + decimal(addr as nat)
            + ", slave "@ + decimal(slave as nat) + ", "@ + debug_words(raw@)
            + " not writable)"@,
{
    if ok {
        let mut m = chars_of("set ");
        append(&mut m, &chars_of(name));
        append(&mut m, &chars_of(" = "));
        append(&mut m, &chars_of(value));
        string_of(&m)
    } else {
        let mut m = chars_of(":set '");
        append(&mut m, &chars_of(name));
        append(&mut m, &chars_of("' rejected (addr "));
        push_decimal(&mut m, addr as u128);
        append(&mut m, &chars_of(", slave "));
        push_decimal(&mut m, slave as u128);
        append(&mut m, &chars_of(", "));
        push_debug_words(&mut m, raw);
        append(&mut m, &chars_of(" not writable)"));
        string_of(&m)
    }
}

/// What a client logs after sending the write request of `:set name value`.
pub fn send_report(name: &str, value: &str, result: &Result<(), String>) -> (r: String)
    ensures
        match result {
            Ok(()) => r@ == "set "@ + name@ + " = "@ + value@ + " (sent)"@,
            Err(e) => r@ == ":set failed: "@ + e@,
        },
{
    match result {
        Ok(()) => {
            let mut m = chars_of("set ");
            append(&mut m, &chars_of(name));
            append(&mut m, &chars_of(" = "));
            append(&mut m, &chars_of(value));
            append(&mut m, &chars_of(" (sent)"));
            string_of(&m)
        },
        Err(e) => {
            let mut m = chars_of(":set failed: ");
            append(&mut m, &chars_of(e.as_str()));
            string_of(&m)
        },
    }
}

// ---------------------------------------------------------------------------------------------
// Applying an edited or added register.
// ---------------------------------------------------------------------------------------------

/// The value written to a register just added: the value typed in the dialog, else its
/// configured default (as text), else nothing.
pub fn value_after_add(value: Option<String>, default_text: Option<String>) -> (r: Option<String>)
    ensures
        r == (match value {
            Some(v) => Some(v),
            None => default_text,
        }),
{
    match value {
        Some(v) => Some(v),
        None => default_text,
    }
}

/// The value written to a register after an edit: the value typed in the dialog; else, on a
/// server whose register kept its address, the value it showed (so a format change alone
/// does not lose it); else nothing.
pub fn value_after_edit(role: Role, value: Option<String>, same_address: bool, current: &str) -> (r:
    Option<String>)
    ensures
        value is Some ==> r == value,
        value is None ==> (r is Some <==> (role == Role::Server && same_address && current@.len()
            > 0)),
        (value is None && r is Some) ==> r->0@ == current@,
{
    match value {
        Some(v) => Some(v),
        None => {
            let server = match role {
                Role::Server => true,
                Role::Client => false,
            };
            if server && same_address && !current.is_empty() {
                Some(string_of(&chars_of(current)))
            } else {
                None
            }
        },
    }
}

/// The update script a definition keeps after an edit: an edit carrying no script keeps the old
/// one, an empty script removes it, any other replaces it.
pub fn update_after_edit(old: Option<String>, edited: Option<String>) -> (r: Option<String>)
    ensures
        r == (match edited {
            None => old,
            Some(s) => if s@.len() == 0 {
                None
            } else {
                Some(s)
            },
        }),
{
    match edited {
        None => old,
        Some(s) => if s.as_str().is_empty() {
            None
        } else {
            Some(s)
        },
    }
}

/// The update script a new definition gets: the dialog's script, unless it is empty.
pub fn update_after_add(edited: Option<String>) -> (r: Option<String>)
    ensures
        r == (match edited {
            None => None,
            Some(s) => if s@.len() == 0 {
                None
            } else {
                Some(s)
            },
        }),
{
    update_after_edit(None, edited)
}

} // verus!
