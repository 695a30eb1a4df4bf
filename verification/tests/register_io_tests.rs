use ferrowl::config::{AccessCfg, MemRange, RegKind, Role};
use ferrowl::register_io::{
    address_fields, def_address, def_mem_range, update_after_add, update_after_edit,
    value_after_add, value_after_edit,
    kind_of_read_code, local_write_report, mem_binding, mem_type, plan_set_value, plan_set_write,
    read_code_of, send_report, write_command, MemAccess, MemBinding, MemType, SetPlan, SetTarget,
    SetWrite, WriteCommand,
};

fn target(kind: RegKind, address: Option<u16>, role: Role, access: AccessCfg) -> SetTarget {
    SetTarget { kind, address, slave: 7, access, role }
}

#[test]
fn rio_mem_type_by_kind() {
    assert_eq!(mem_type(RegKind::Coil), MemType::Coil);
    assert_eq!(mem_type(RegKind::DiscreteInput), MemType::Coil);
    assert_eq!(mem_type(RegKind::HoldingRegister), MemType::Register);
    assert_eq!(mem_type(RegKind::InputRegister), MemType::Register);
}

#[test]
fn rio_read_codes_round_trip() {
    assert_eq!(kind_of_read_code(1), RegKind::Coil);
    assert_eq!(kind_of_read_code(2), RegKind::DiscreteInput);
    assert_eq!(kind_of_read_code(3), RegKind::InputRegister);
    assert_eq!(kind_of_read_code(4), RegKind::HoldingRegister);
    assert_eq!(kind_of_read_code(9), RegKind::InputRegister);
    for kind in [
        RegKind::Coil,
        RegKind::DiscreteInput,
        RegKind::HoldingRegister,
        RegKind::InputRegister,
    ] {
        assert_eq!(kind_of_read_code(read_code_of(kind)), kind);
    }
}

#[test]
fn rio_mem_binding_fixed_and_virtual() {
    assert_eq!(mem_binding(RegKind::HoldingRegister, 3, None, 2), None);
    assert_eq!(
        mem_binding(RegKind::HoldingRegister, 3, Some(100), 2),
        Some(MemBinding {
            access: MemAccess::ReadWrite(MemType::Register),
            slave: 3,
            kind: RegKind::HoldingRegister,
            range: MemRange { start: 100, len: 2 },
        })
    );
    assert_eq!(
        mem_binding(RegKind::DiscreteInput, 1, Some(5), 1).map(|b| b.access),
        Some(MemAccess::Read(MemType::Coil))
    );
}

#[test]
fn rio_write_command_single_and_multiple() {
    assert_eq!(
        write_command(RegKind::Coil, 1, 10, &vec![5]),
        WriteCommand::WriteSingleCoil(1, 10, true)
    );
    assert_eq!(
        write_command(RegKind::DiscreteInput, 1, 10, &vec![0, 2, 0]),
        WriteCommand::WriteMultipleCoils(1, 10, vec![false, true, false])
    );
    assert_eq!(
        write_command(RegKind::HoldingRegister, 2, 20, &vec![0xabcd]),
        WriteCommand::WriteSingleRegister(2, 20, 0xabcd)
    );
    assert_eq!(
        write_command(RegKind::InputRegister, 2, 20, &vec![1, 2]),
        WriteCommand::WriteMultipleRegister(2, 20, vec![1, 2])
    );
}

#[test]
fn rio_set_unknown_and_virtual() {
    assert_eq!(
        plan_set_value(None, "temp", "1"),
        SetPlan::Report(":set unknown register 'temp'".to_string())
    );
    let server = target(RegKind::HoldingRegister, None, Role::Server, AccessCfg::ReadWrite);
    assert_eq!(
        plan_set_value(Some(server), "temp", "21"),
        SetPlan::SetVirtual("set temp = 21 (virtual)".to_string())
    );
    let client = target(RegKind::HoldingRegister, None, Role::Client, AccessCfg::ReadWrite);
    assert_eq!(
        plan_set_value(Some(client), "temp", "21"),
        SetPlan::Report(":set 'temp' is virtual — only writable on servers".to_string())
    );
    let fixed = target(RegKind::HoldingRegister, Some(40), Role::Client, AccessCfg::ReadWrite);
    assert_eq!(plan_set_value(Some(fixed), "temp", "21"), SetPlan::Encode(40));
}

#[test]
fn rio_set_write_steps() {
    let server = target(RegKind::HoldingRegister, Some(40), Role::Server, AccessCfg::ReadWrite);
    assert_eq!(
        plan_set_write(server, 40, Err("bad value".to_string())),
        SetWrite::Report(":set encode error: bad value".to_string())
    );
    assert_eq!(
        plan_set_write(server, 40, Ok(vec![1, 2])),
        SetWrite::WriteLocal {
            slave: 7,
            kind: RegKind::HoldingRegister,
            range: MemRange { start: 40, len: 2 },
            raw: vec![1, 2],
        }
    );
    let client = target(RegKind::Coil, Some(3), Role::Client, AccessCfg::WriteOnly);
    assert_eq!(
        plan_set_write(client, 3, Ok(vec![1])),
        SetWrite::Send { command: WriteCommand::WriteSingleCoil(7, 3, true), mirror: true }
    );
    let client = target(RegKind::HoldingRegister, Some(3), Role::Client, AccessCfg::ReadWrite);
    assert_eq!(
        plan_set_write(client, 3, Ok(vec![9])),
        SetWrite::Send { command: WriteCommand::WriteSingleRegister(7, 3, 9), mirror: false }
    );
}

#[test]
fn rio_set_reports() {
    assert_eq!(local_write_report("t", "5", 40, 7, &vec![5], true), "set t = 5");
    assert_eq!(
        local_write_report("t", "5", 40, 7, &vec![1, 23], false),
        format!("{}", ":set 't' rejected (addr 40, slave 7, [1, 23] not writable)")
    );
    assert_eq!(send_report("t", "5", &Ok(())), "set t = 5 (sent)");
    assert_eq!(send_report("t", "5", &Err("timeout".to_string())), ":set failed: timeout");
}

#[test]
fn rio_definition_addresses() {
    assert_eq!(def_address(false, Some(12)), Some(12));
    assert_eq!(def_address(true, Some(12)), None);
    assert_eq!(def_address(false, None), None);
    assert_eq!(address_fields(Some(7)), (Some(7), false));
    assert_eq!(address_fields(None), (None, true));
    let (a, v) = address_fields(Some(7));
    assert_eq!(def_address(v, a), Some(7));
    assert_eq!(def_mem_range(false, Some(100), 4), Some(MemRange { start: 100, len: 4 }));
    assert_eq!(def_mem_range(true, Some(100), 4), None);
}

#[test]
fn rio_values_after_add_and_edit() {
    let s = |v: &str| Some(v.to_string());
    assert_eq!(value_after_add(s("5"), s("1")), s("5"));
    assert_eq!(value_after_add(None, s("1")), s("1"));
    assert_eq!(value_after_add(None, None), None);
    assert_eq!(value_after_edit(Role::Server, s("7"), false, "3"), s("7"));
    assert_eq!(value_after_edit(Role::Server, None, true, "3"), s("3"));
    assert_eq!(value_after_edit(Role::Server, None, false, "3"), None);
    assert_eq!(value_after_edit(Role::Server, None, true, ""), None);
    assert_eq!(value_after_edit(Role::Client, None, true, "3"), None);
}

#[test]
fn rio_update_scripts_after_add_and_edit() {
    let s = |v: &str| Some(v.to_string());
    assert_eq!(update_after_edit(s("old"), None), s("old"));
    assert_eq!(update_after_edit(s("old"), s("")), None);
    assert_eq!(update_after_edit(s("old"), s("new")), s("new"));
    assert_eq!(update_after_add(s("")), None);
    assert_eq!(update_after_add(s("x")), s("x"));
    assert_eq!(update_after_add(None), None);
}
