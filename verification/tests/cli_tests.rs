use ferrowl::cli::{
    create_module_spec_by_device, parse_module_spec, parse_ocpp_spec, CliArgs, RunArgs,
    SessionEntry,
};
use ferrowl::config::{Endpoint, ModuleSpec, OcppModuleSpec, OcppProtocol, Role};

fn cli(modules: Vec<&str>, sessions: Vec<&str>, devices: Vec<&str>) -> CliArgs {
    CliArgs {
        command: None,
        modules: modules.into_iter().map(String::from).collect(),
        sessions: sessions.into_iter().map(String::from).collect(),
        devices: devices.into_iter().map(String::from).collect(),
        demo: false,
    }
}

fn modbus_entry(kind: Option<&str>, spec: ModuleSpec) -> SessionEntry {
    SessionEntry {
        kind: kind.map(String::from),
        modbus: Ok(spec),
        ocpp: Err("missing field `protocol`".to_string()),
    }
}

fn ocpp_entry(spec: OcppModuleSpec) -> SessionEntry {
    SessionEntry {
        kind: Some("ocpp".to_string()),
        modbus: Err("missing field `role`".to_string()),
        ocpp: Ok(spec),
    }
}

fn cs_spec() -> OcppModuleSpec {
    OcppModuleSpec {
        name: "cs".into(),
        device: "cs.toml".into(),
        protocol: OcppProtocol::Ws,
        ip: "127.0.0.1".into(),
        port: 9000,
        path: String::new(),
    }
}

#[test]
fn ut_parse_tcp_module() {
    let spec = parse_module_spec(
        "name=evse-1,device=configs/evse.toml,transport=tcp,ip=10.0.0.5,port=502,role=server",
    )
    .unwrap();
    assert_eq!(spec.name, "evse-1");
    assert_eq!(spec.device, "configs/evse.toml");
    assert_eq!(spec.role, Role::Server);
    assert_eq!(
        spec.endpoint,
        Endpoint::Tcp {
            ip: "10.0.0.5".into(),
            port: 502
        }
    );
}

#[test]
fn ut_parse_tcp_defaults() {
    let spec = parse_module_spec("name=m,type=d.toml,port=1502").unwrap();
    assert_eq!(spec.role, Role::Server);
    assert_eq!(
        spec.endpoint,
        Endpoint::Tcp {
            ip: "127.0.0.1".into(),
            port: 1502
        }
    );
}

#[test]
fn ut_parse_rtu_module() {
    let spec = parse_module_spec(
        "name=m,device=d.toml,transport=rtu,path=/dev/ttyUSB0,baud=9600,role=client",
    )
    .unwrap();
    assert_eq!(spec.role, Role::Client);
    assert_eq!(
        spec.endpoint,
        Endpoint::Rtu {
            path: "/dev/ttyUSB0".into(),
            baud_rate: 9600,
            parity: None,
            data_bits: None,
            stop_bits: None,
        }
    );
}

#[test]
fn ut_parse_rtu_over_tcp_module() {
    let spec = parse_module_spec(
        "name=m,device=d.toml,transport=rtu_over_tcp,ip=10.0.0.5,port=502,role=client",
    )
    .unwrap();
    assert_eq!(spec.role, Role::Client);
    assert_eq!(
        spec.endpoint,
        Endpoint::RtuOverTcp {
            ip: "10.0.0.5".into(),
            port: 502
        }
    );
}

#[test]
fn ut_parse_invalid_transport_still_errors() {
    assert!(parse_module_spec("name=m,device=d,transport=usb").is_err());
}

#[test]
fn invalid_transport_message_lists_the_options() {
    assert_eq!(
        parse_module_spec("name=m,device=d,transport=usb"),
        Err("invalid transport 'usb' (expected tcp|rtu|rtu_over_tcp|udp|ascii|ascii_over_tcp)"
            .to_string())
    );
}

#[test]
fn ut_parse_ascii_module() {
    let spec = parse_module_spec(
        "name=m,device=d.toml,transport=ascii,path=/dev/ttyUSB0,baud=9600,role=client",
    )
    .unwrap();
    assert_eq!(spec.role, Role::Client);
    assert_eq!(
        spec.endpoint,
        Endpoint::Ascii {
            path: "/dev/ttyUSB0".into(),
            baud_rate: 9600,
            parity: None,
            data_bits: None,
            stop_bits: None
        }
    );
}

#[test]
fn ut_parse_ascii_over_tcp_module() {
    let spec = parse_module_spec(
        "name=m,device=d.toml,transport=ascii_over_tcp,ip=10.0.0.5,port=502,role=client",
    )
    .unwrap();
    assert_eq!(spec.role, Role::Client);
    assert_eq!(
        spec.endpoint,
        Endpoint::AsciiOverTcp {
            ip: "10.0.0.5".into(),
            port: 502
        }
    );
}

#[test]
fn ut_parse_module_spec_udp_ok() {
    let spec =
        parse_module_spec("name=m,device=d.toml,transport=udp,ip=127.0.0.1,port=502").unwrap();
    assert_eq!(
        spec.endpoint,
        Endpoint::Udp {
            ip: "127.0.0.1".into(),
            port: 502
        }
    );
    let client_spec =
        parse_module_spec("name=m,device=d.toml,role=client,transport=udp,ip=127.0.0.1,port=502")
            .unwrap();
    assert_eq!(client_spec.role, Role::Client);
    assert!(matches!(client_spec.endpoint, Endpoint::Udp { .. }));
}

#[test]
fn ut_device_spec_defaults() {
    let spec = create_module_spec_by_device("Device 0".to_string(), "d.toml".to_string());
    assert_eq!(spec.name, "Device 0");
    assert_eq!(spec.device, "d.toml");
    assert_eq!(spec.role, Role::Client);
    assert_eq!(
        spec.endpoint,
        Endpoint::Tcp {
            ip: "127.0.0.1".into(),
            port: 5020
        }
    );
}

#[test]
fn ut_missing_name_errors() {
    assert!(parse_module_spec("device=d.toml,port=502").is_err());
}

#[test]
fn ut_missing_port_errors() {
    assert!(parse_module_spec("name=m,device=d.toml,transport=tcp").is_err());
}

#[test]
fn missing_port_message_names_the_transport() {
    assert_eq!(
        parse_module_spec("name=m,device=d.toml,transport=tcp"),
        Err("tcp module requires 'port'".to_string())
    );
}

#[test]
fn ut_module_specs_combines_all_sources() {
    let session = vec![modbus_entry(
        None,
        create_module_spec_by_device("S".into(), "s.toml".into()),
    )];
    let args = cli(vec!["name=m,device=d.toml,port=1"], vec!["s.toml"], vec!["dev.toml"]);
    let specs = args.module_specs(vec![Ok(session)]).unwrap();
    assert_eq!(specs.len(), 3);
    assert_eq!(specs[0].name, "S");
    assert_eq!(specs[1].name, "m");
    assert_eq!(specs[2].name, "Device 0");
    assert_eq!(specs[2].device, "dev.toml");
}

#[test]
fn device_instances_are_numbered_in_order() {
    let args = cli(vec![], vec![], vec!["a.toml", "b.toml"]);
    let specs = args.module_specs(vec![]).unwrap();
    assert_eq!(specs[0].name, "Device 0");
    assert_eq!(specs[1].name, "Device 1");
    assert_eq!(specs[1].device, "b.toml");
}

#[test]
fn ut_session_splits_modbus_and_ocpp() {
    let session = || {
        vec![
            modbus_entry(
                Some("modbus"),
                create_module_spec_by_device("mb".into(), "s.toml".into()),
            ),
            ocpp_entry(cs_spec()),
        ]
    };
    let args = cli(vec![], vec!["mixed.json"], vec![]);
    assert_eq!(args.module_specs(vec![Ok(session())]).unwrap().len(), 1);
    let ocpp = args.ocpp_specs(vec![Ok(session())]).unwrap();
    assert_eq!(ocpp.len(), 1);
    assert_eq!(ocpp[0].name, "cs");
    assert_eq!(ocpp[0].device, "cs.toml");
    assert_eq!(ocpp[0].port, 9000);
}

#[test]
fn ut_module_specs_session_load_error() {
    let args = cli(vec![], vec!["/no/such/ferrowl.toml"], vec![]);
    assert!(args
        .module_specs(vec![Err("No such file or directory".to_string())])
        .is_err());
}

#[test]
fn ut_unknown_module_type_aborts_resolution() {
    let entry = SessionEntry {
        kind: Some("plc".to_string()),
        modbus: Err("missing field `device`".to_string()),
        ocpp: Err("missing field `device`".to_string()),
    };
    let err = cli(vec![], vec!["s.toml"], vec![])
        .module_specs(vec![Ok(vec![entry])])
        .unwrap_err();
    assert!(err.contains("unsupported module type"), "got: {err}");
    assert_eq!(err, "unsupported module type 'plc'");
}

#[test]
fn ut_module_missing_required_field_errors() {
    let entry = SessionEntry {
        kind: Some("modbus".to_string()),
        modbus: Err("missing field `name`".to_string()),
        ocpp: Err("missing field `protocol`".to_string()),
    };
    let err = cli(vec![], vec!["s.toml"], vec![])
        .module_specs(vec![Ok(vec![entry])])
        .unwrap_err();
    assert_eq!(err, "invalid modbus module spec: missing field `name`");
}

#[test]
fn ut_parse_empty_parts_and_error_paths() {
    assert_eq!(
        parse_module_spec("name=m,,device=d.toml,port=1").unwrap().name,
        "m"
    );
    assert!(parse_module_spec("name=m,device=d,port=1,role=bogus").is_err());
    assert!(parse_module_spec("name=m,device=d,transport=usb").is_err());
    assert!(parse_module_spec("name=m,oops,device=d,port=1").is_err());
    assert!(parse_module_spec("name=m,device=d,transport=rtu").is_err());
    assert!(parse_module_spec("name=m,device=d,transport=rtu,path=/x,data_bits=foo").is_err());
    assert!(parse_module_spec("name=m,device=d,port=notanum").is_err());
}

#[test]
fn descriptor_error_messages() {
    assert_eq!(
        parse_module_spec("name=m,oops,device=d,port=1"),
        Err("expected key=value, got 'oops'".to_string())
    );
    assert_eq!(
        parse_module_spec("name=m,device=d,port=1,role=bogus"),
        Err("invalid role 'bogus' (expected client|server)".to_string())
    );
    assert_eq!(
        parse_module_spec("name=m,device=d,transport=rtu,path=/x,data_bits=foo"),
        Err("invalid 'data_bits'".to_string())
    );
    assert_eq!(
        parse_module_spec("device=d.toml,port=502"),
        Err("module requires 'name'".to_string())
    );
    assert_eq!(
        parse_module_spec("name=m,port=502"),
        Err("module requires 'device' (or 'type')".to_string())
    );
}

#[test]
fn later_keys_override_earlier_ones_and_values_are_trimmed() {
    let spec = parse_module_spec(" name = a , name=b, device=d.toml , port = 7 ").unwrap();
    assert_eq!(spec.name, "b");
    assert_eq!(spec.device, "d.toml");
    assert_eq!(
        spec.endpoint,
        Endpoint::Tcp {
            ip: "127.0.0.1".into(),
            port: 7
        }
    );
}

#[test]
fn ut_parse_rtu_full_options() {
    let spec = parse_module_spec(
        "name=m,device=d,transport=rtu,path=/dev/x,baud_rate=4800,parity=even,data_bits=7,stop_bits=2",
    )
    .unwrap();
    assert_eq!(
        spec.endpoint,
        Endpoint::Rtu {
            path: "/dev/x".into(),
            baud_rate: 4800,
            parity: Some("even".into()),
            data_bits: Some(7),
            stop_bits: Some(2),
        }
    );
}

#[test]
fn rtu_defaults_to_19200_baud() {
    let spec = parse_module_spec("name=m,device=d,transport=rtu,path=/dev/x").unwrap();
    assert_eq!(
        spec.endpoint,
        Endpoint::Rtu {
            path: "/dev/x".into(),
            baud_rate: 19200,
            parity: None,
            data_bits: None,
            stop_bits: None,
        }
    );
}

#[test]
fn ut_parse_ocpp_spec_defaults() {
    let spec = parse_ocpp_spec("name=cs-1,device=cs.toml,port=9000").unwrap();
    assert_eq!(spec.name, "cs-1");
    assert_eq!(spec.device, "cs.toml");
    assert_eq!(spec.ip, "127.0.0.1");
    assert_eq!(spec.port, 9000);
    assert_eq!(spec.path, "");
    assert_eq!(spec.protocol, OcppProtocol::Ws);
}

#[test]
fn ut_parse_ocpp_spec_full() {
    let spec = parse_ocpp_spec(
        "name=cs-1,device=cs.toml,protocol=wss,ip=10.0.0.5,port=9001,path=/ocpp/cp001",
    )
    .unwrap();
    assert_eq!(spec.protocol, OcppProtocol::Wss);
    assert_eq!(spec.ip, "10.0.0.5");
    assert_eq!(spec.path, "/ocpp/cp001");
}

#[test]
fn ut_parse_ocpp_spec_ignores_extra_headers_key() {
    let spec =
        parse_ocpp_spec("name=cs1,device=d.toml,port=9000,extra_headers=X-Tenant:acme").unwrap();
    assert_eq!(spec.name, "cs1");
    assert_eq!(spec.device, "d.toml");
    assert_eq!(spec.port, 9000);
}

#[test]
fn ut_parse_ocpp_spec_errors() {
    assert!(parse_ocpp_spec("device=d,port=1").is_err());
    assert!(parse_ocpp_spec("name=m,port=1").is_err());
    assert!(parse_ocpp_spec("name=m,device=d").is_err());
    assert!(parse_ocpp_spec("name=m,device=d,port=notanum").is_err());
    assert!(parse_ocpp_spec("name=m,device=d,port=1,protocol=bogus").is_err());
}

#[test]
fn ocpp_error_messages() {
    assert_eq!(
        parse_ocpp_spec("name=m,device=d,port=1,protocol=bogus"),
        Err("invalid protocol 'bogus' (expected ws|wss)".to_string())
    );
    assert_eq!(
        parse_ocpp_spec("name=m,device=d"),
        Err("ocpp module requires 'port'".to_string())
    );
    assert_eq!(
        parse_ocpp_spec("name=m,device=d,port=70000"),
        Err("invalid 'port'".to_string())
    );
}

#[test]
fn ut_run_args_resolve_module_and_ocpp_specs() {
    let run = RunArgs {
        sessions: vec![],
        modules: vec!["name=m,device=d.toml,port=1502".into()],
        ocpp: vec!["name=cs,device=cs.toml,port=9000".into()],
        duration: None,
        log_file: None,
        exit_on_error: false,
    };
    let specs = run.module_specs(vec![]).unwrap();
    assert_eq!(specs.len(), 1);
    assert_eq!(specs[0].name, "m");
    let ocpp = run.ocpp_specs(vec![]).unwrap();
    assert_eq!(ocpp.len(), 1);
    assert_eq!(ocpp[0].name, "cs");
    assert_eq!(ocpp[0].port, 9000);
}

#[test]
fn run_ocpp_sessions_come_before_flags() {
    let run = RunArgs {
        sessions: vec!["s.json".into()],
        modules: vec![],
        ocpp: vec!["name=flag,device=f.toml,port=1".into()],
        duration: None,
        log_file: None,
        exit_on_error: false,
    };
    let ocpp = run.ocpp_specs(vec![Ok(vec![ocpp_entry(cs_spec())])]).unwrap();
    assert_eq!(ocpp.len(), 2);
    assert_eq!(ocpp[0].name, "cs");
    assert_eq!(ocpp[1].name, "flag");
    let args = run.as_cli_args();
    assert_eq!(args.sessions, vec!["s.json".to_string()]);
    assert!(args.devices.is_empty());
}

#[test]
fn ocpp_spec_ignores_unread_keys() {
    let plain = ferrowl::cli::parse_ocpp_spec("name=m,device=d,port=1");
    let extra = ferrowl::cli::parse_ocpp_spec("name=m,device=d,port=1,extra_headers=X-Tenant:acme");
    assert!(plain.is_ok());
    assert_eq!(plain, extra);
    let bad = ferrowl::cli::parse_ocpp_spec("name=m,device=d");
    let bad_extra = ferrowl::cli::parse_ocpp_spec("name=m,device=d,extra_headers=X-Tenant:acme");
    assert_eq!(bad, bad_extra);
}
