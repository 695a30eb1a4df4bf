use ferrowl::config::{ConfigError, Endpoint, Role, Session};
use ferrowl::config::{collect_scripts, load_session, parse_ranges, MemRange, ReadRanges, RegKind};
use ferrowl::convert::FileType;
use ferrowl::dialog::{
    close_confirm_event, entries_from_ring, select_u8, Address, Bitmask, CloseConfirmEvent,
    ConfirmKey, DeviceSource, DialogMode, Interval, NonEmpty, Parity, ReconnectChoice,
    SetupForm, Transport, U8Choice, ValidateResult,
};
use ferrowl::help::{lua_help_overlay, script_keys_overlay, sections, ScriptContext};
use ferrowl::path_suggest::{
    complete_from_listing, completion_dir, expand_tilde, suggestions, EntryKind, FsPathProvider,
};
use ferrowl::tls::{
    ClientCertSource, ClientCertVerification, ClientTlsPolicy, ClientVerification, ServerCertSource,
    ServerTlsPolicy,
};
use ferrowl::tls_section::{
    check_ca_file, ClientOrServer, EffectiveTlsLevel, SelfSignedChoice, SkipVerifyChoice, TlsSection,
};

#[test]
fn ut_labels() {
    assert_eq!(Parity::Even.to_label(), "Even");
    assert_eq!(ReconnectChoice::On.to_label(), "On");
    assert_eq!(U8Choice(8).to_label(), "8");
    assert_eq!(Transport::Rtu.to_label(), "RTU");
    assert_eq!(Role::Client.to_label(), "Client");
}

#[test]
fn ut_parity_config_round_trip_and_index() {
    assert_eq!(Parity::NoParity.to_config(), None);
    assert_eq!(Parity::Odd.to_config().as_deref(), Some("odd"));
    assert_eq!(Parity::Even.to_config().as_deref(), Some("even"));
    assert_eq!(Parity::from_config(Some("ODD")), Parity::Odd);
    assert_eq!(Parity::from_config(Some("even")), Parity::Even);
    assert_eq!(Parity::from_config(Some("weird")), Parity::NoParity);
    assert_eq!(Parity::from_config(None), Parity::NoParity);
    assert_eq!(Parity::NoParity.index(), 0);
    assert_eq!(Parity::Odd.index(), 1);
    assert_eq!(Parity::Even.index(), 2);
}

#[test]
fn select_u8_finds_the_offered_choice() {
    let choices = vec![U8Choice(8), U8Choice(7), U8Choice(6), U8Choice(5)];
    assert_eq!(select_u8(&choices, Some(6)), Some(2));
    assert_eq!(select_u8(&choices, Some(9)), None);
    assert_eq!(select_u8(&choices, None), None);
}

#[test]
fn non_empty_validator() {
    assert!(matches!(NonEmpty::validate(""), ValidateResult::Error(_)));
    assert_eq!(NonEmpty::validate("hello"), ValidateResult::Neutral);
    assert_eq!(NonEmpty::validate(" "), ValidateResult::Neutral);
}

#[test]
fn address_validator() {
    assert_eq!(Address::validate("virtual"), ValidateResult::Success);
    assert_eq!(Address::validate("0"), ValidateResult::Neutral);
    assert_eq!(Address::validate("32767"), ValidateResult::Neutral);
    assert_eq!(Address::validate("-32768"), ValidateResult::Neutral);
    assert_eq!(Address::validate("100"), ValidateResult::Neutral);
    assert!(matches!(Address::validate("32768"), ValidateResult::Error(_)));
    assert!(matches!(Address::validate("-32769"), ValidateResult::Error(_)));
    assert!(matches!(Address::validate("99999"), ValidateResult::Error(_)));
    assert!(matches!(Address::validate("abc"), ValidateResult::Error(_)));
    assert!(matches!(Address::validate(""), ValidateResult::Error(_)));
}

#[test]
fn bitmask_validator() {
    assert_eq!(Bitmask::validate(""), ValidateResult::Neutral);
    assert_eq!(Bitmask::validate("0xFF"), ValidateResult::Neutral);
    assert_eq!(Bitmask::validate("0x0"), ValidateResult::Neutral);
    assert_eq!(Bitmask::validate("0xDEADBEEF"), ValidateResult::Neutral);
    assert_eq!(Bitmask::validate("0XFF"), ValidateResult::Neutral);
    assert_eq!(Bitmask::validate("0X0"), ValidateResult::Neutral);
    assert!(matches!(Bitmask::validate("0xGG"), ValidateResult::Error(_)));
    assert!(matches!(Bitmask::validate("0x"), ValidateResult::Error(_)));
    assert_eq!(Bitmask::validate("0"), ValidateResult::Neutral);
    assert_eq!(Bitmask::validate("255"), ValidateResult::Neutral);
    assert_eq!(
        Bitmask::validate("340282366920938463463374607431768211455"),
        ValidateResult::Neutral
    );
    assert!(matches!(
        Bitmask::validate("340282366920938463463374607431768211456"),
        ValidateResult::Error(_)
    ));
    assert!(matches!(Bitmask::validate("abc"), ValidateResult::Error(_)));
    assert_eq!(
        Bitmask::validate("-1"),
        ValidateResult::Error("must be a hex (0x…) or decimal number".to_string())
    );
}

#[test]
fn ut_interval_allowed_char() {
    assert!(Interval::allowed_char('5'));
    assert!(Interval::allowed_char('.'));
    assert!(!Interval::allowed_char('-'));
    assert!(!Interval::allowed_char('e'));
    assert!(!Interval::allowed_char(' '));
    assert!(!Interval::allowed_char('a'));
}

#[test]
fn ut_entries_from_ring_trims_nul_padding() {
    let entries = entries_from_ring(vec![(0, "hello\u{0}\u{0}".to_string())]);
    assert_eq!(entries[0].message, "hello");
}

#[test]
fn entries_keep_order_and_timestamps() {
    let entries = entries_from_ring(vec![(5, "a".to_string()), (7, "\u{0}".to_string())]);
    assert_eq!(entries.len(), 2);
    assert_eq!(entries[0].timestamp_ms, 5);
    assert_eq!(entries[1].message, "");
}

#[test]
fn close_confirm_keys() {
    assert_eq!(close_confirm_event(true, ConfirmKey::Enter), CloseConfirmEvent::Close);
    assert_eq!(close_confirm_event(true, ConfirmKey::Char(' ')), CloseConfirmEvent::Close);
    assert_eq!(close_confirm_event(true, ConfirmKey::Esc), CloseConfirmEvent::Dismiss);
    assert_eq!(close_confirm_event(false, ConfirmKey::Enter), CloseConfirmEvent::Consumed);
    assert_eq!(close_confirm_event(true, ConfirmKey::Char('q')), CloseConfirmEvent::Consumed);
}

#[test]
fn setup_form_edit_round_trips_an_instance() {
    let endpoint = Endpoint::Rtu {
        path: "/dev/ttyUSB0".to_string(),
        baud_rate: 9600,
        parity: Some("EVEN".to_string()),
        data_bits: Some(7),
        stop_bits: Some(3),
    };
    let form = SetupForm::edit("pump", Role::Client, &endpoint, (1000, 20, 500));
    assert_eq!(form.transport, Transport::Rtu);
    assert_eq!(form.baud, "9600");
    assert_eq!(form.parity, Parity::Even);
    assert_eq!(form.stop_bits, 1);
    let values = form.values().unwrap();
    assert_eq!(values.name, "pump");
    assert_eq!(
        values.endpoint,
        Endpoint::Rtu {
            path: "/dev/ttyUSB0".to_string(),
            baud_rate: 9600,
            parity: Some("even".to_string()),
            data_bits: Some(7),
            stop_bits: Some(1),
        }
    );
    assert_eq!(values.timeout_ms, Some(1000));
    assert_eq!(values.interval_ms, Some(500));
}

#[test]
fn setup_form_errors() {
    let mut form = SetupForm::create((1, 2, 3));
    assert_eq!(form.mode, DialogMode::New);
    assert_eq!(form.values().err(), Some("Name is required.".to_string()));
    form.name = " m ".to_string();
    assert_eq!(form.values().err(), Some("IP address is required.".to_string()));
    form.ip = "1.2.3.4".to_string();
    form.port = "x".to_string();
    assert_eq!(
        form.values().err(),
        Some("Port must be a number (0-65535).".to_string())
    );
    form.port = " 502 ".to_string();
    form.role = Role::Client;
    form.delay = "soon".to_string();
    assert_eq!(
        form.values().err(),
        Some("Delay must be a whole number of milliseconds.".to_string())
    );
    form.delay = "".to_string();
    let values = form.values().unwrap();
    assert_eq!(values.name, "m");
    assert_eq!(values.delay_ms, None);
    assert_eq!(values.timeout_ms, Some(1));
    match form.resolve().unwrap().1 {
        DeviceSource::Empty => {}
        other => panic!("unexpected {other:?}"),
    }
    form.config_path = " dev.toml ".to_string();
    match form.resolve().unwrap().1 {
        DeviceSource::Load(p) => assert_eq!(p, "dev.toml"),
        other => panic!("unexpected {other:?}"),
    }
}

#[test]
fn servers_take_no_timing() {
    let form = SetupForm::edit(
        "s",
        Role::Server,
        &Endpoint::Tcp {
            ip: "0.0.0.0".to_string(),
            port: 502,
        },
        (1, 2, 3),
    );
    let values = form.values().unwrap();
    assert_eq!(values.timeout_ms, None);
    assert_eq!(values.role, Role::Server);
    match form.resolve().unwrap().1 {
        DeviceSource::Existing => {}
        other => panic!("unexpected {other:?}"),
    }
}

fn titles(ctx: ScriptContext) -> Vec<String> {
    sections(ctx).into_iter().map(|s| s.title).collect()
}

#[test]
fn ut_modbus_has_register_no_ocpp() {
    let t = titles(ScriptContext::Modbus);
    assert!(t.iter().any(|s| s == "C_Register"));
    assert!(!t.iter().any(|s| s == "C_OCPP"));
}

#[test]
fn ut_ocpp_server_mentions_get_charging_stations() {
    let secs = sections(ScriptContext::OcppServer);
    let ocpp = secs.iter().find(|s| s.title == "C_OCPP").unwrap();
    assert!(ocpp
        .entries
        .iter()
        .any(|(sig, _)| sig.contains("GetChargingStations")));
}

#[test]
fn ut_ocpp_client_mentions_connector() {
    let secs = sections(ScriptContext::OcppClient);
    let ocpp = secs.iter().find(|s| s.title == "C_OCPP").unwrap();
    assert!(ocpp.entries.iter().any(|(sig, _)| sig.contains("Connector")));
}

#[test]
fn ut_session_has_module_section() {
    assert!(titles(ScriptContext::Session).iter().any(|s| s == "C_Module"));
}

#[test]
fn ut_every_context_includes_shared_sections() {
    for ctx in [
        ScriptContext::Modbus,
        ScriptContext::OcppClient,
        ScriptContext::OcppServer,
        ScriptContext::Session,
    ] {
        let t = titles(ctx);
        for shared in ["C_Time", "C_Test", "C_Log"] {
            assert!(t.iter().any(|s| s == shared), "{ctx:?} missing {shared}");
        }
    }
}

#[test]
fn lua_help_page_title() {
    let page = lua_help_overlay(ScriptContext::Modbus);
    assert_eq!(page.title, "Lua Bindings");
    assert_eq!(page.sections.len(), 5);
}

#[test]
fn ut_lists_every_script_table_binding() {
    let page = script_keys_overlay();
    let section = &page.sections[0];
    for key in ["Enter", "e", "t", "d", "c"] {
        assert!(
            section.entries.iter().any(|(k, _)| k == key),
            "missing binding '{key}'"
        );
    }
    assert_eq!(section.entries.len(), 5);
    assert!(section.entries.iter().all(|(_, desc)| !desc.is_empty()));
}

#[test]
fn ut_overlay_carries_the_section() {
    let page = script_keys_overlay();
    assert_eq!(page.title, "Script List Keys");
    assert_eq!(page.sections[0].title, "Script list");
}

#[test]
fn ut_load_unknown_format_errors() {
    let e = load_session("/tmp/ferrowl_cfg.bin", |_t: FileType| Ok(Session::default()));
    assert!(matches!(e, Err(ConfigError::UnknownFormat(_))));
}

#[test]
fn load_reads_in_the_path_format() {
    let got = load_session("s.json", |t: FileType| {
        assert_eq!(t, FileType::Json);
        Err("boom".to_string())
    });
    match got {
        Err(ConfigError::Io(m)) => assert_eq!(m, "boom"),
        _ => panic!("expected an I/O error"),
    }
}

#[test]
fn ut_config_error_display() {
    assert!(ConfigError::UnknownFormat("p".into())
        .message()
        .contains("invalid file"));
    assert_eq!(ConfigError::Io("boom".into()).message(), "boom");
}

#[test]
fn read_ranges_parse() {
    assert_eq!(
        parse_ranges("0-100, 140-160,5,,x,9-3"),
        vec![
            MemRange { start: 0, len: 101 },
            MemRange { start: 140, len: 21 },
            MemRange { start: 5, len: 1 }
        ]
    );
    let rr = ReadRanges {
        holding: Some("2-3".to_string()),
        input: None,
        coils: None,
        discrete: None,
    };
    assert_eq!(rr.ranges_for(RegKind::HoldingRegister), vec![MemRange { start: 2, len: 2 }]);
    assert!(rr.ranges_for(RegKind::Coil).is_empty());
    assert!(!rr.is_empty());
}

#[test]
fn collects_non_blank_update_scripts() {
    let defs = vec![
        ("a".to_string(), Some("C_Time:Sleep(1)".to_string())),
        ("b".to_string(), Some("   ".to_string())),
        ("c".to_string(), None),
    ];
    assert_eq!(
        collect_scripts(&defs),
        vec![("a".to_string(), "C_Time:Sleep(1)".to_string())]
    );
}

#[test]
fn tls_section_rows_follow_role_and_level() {
    let mut s = TlsSection::new();
    assert!(!s.show_self_signed_row());
    s.sync(ClientOrServer::Server, EffectiveTlsLevel::MutualTls);
    assert!(s.show_self_signed_row());
    assert!(s.show_skip_verify_row());
    assert!(s.show_identity_row());
    assert!(s.show_peer_verify_row());
    s.self_signed = SelfSignedChoice::On;
    s.client_cert_skip_verify = SkipVerifyChoice::On;
    assert!(!s.show_identity_row());
    assert!(!s.show_peer_verify_row());
    s.sync(ClientOrServer::Client, EffectiveTlsLevel::Tls);
    assert!(!s.show_self_signed_row());
    assert!(s.show_peer_verify_row());
}

#[test]
fn ut_prefill_server_mutual_tls_round_trips() {
    let mut s = TlsSection::new();
    let policy = ServerTlsPolicy::MutualTls {
        server_cert: ServerCertSource::Explicit {
            cert_file: "s.crt".to_string(),
            key_file: "s.key".to_string(),
        },
        client_verification: ClientCertVerification::Verify {
            ca_files: vec!["ca1.pem".to_string(), "ca2.pem".to_string()],
        },
    };
    s.prefill(ClientOrServer::Server, Some(&policy), None);
    s.sync(ClientOrServer::Server, EffectiveTlsLevel::MutualTls);
    let inputs = s.extract();
    assert!(!inputs.self_signed);
    assert_eq!(inputs.cert_file, "s.crt");
    assert_eq!(inputs.key_file, "s.key");
    assert_eq!(inputs.client_ca_files, vec!["ca1.pem".to_string(), "ca2.pem".to_string()]);
    assert!(!inputs.client_cert_skip_verify);
    assert!(!s.delete_selected_client_ca());
    assert_eq!(s.client_ca_files, vec!["ca2.pem".to_string()]);
    assert!(s.delete_selected_client_ca());
    assert!(s.client_ca_files.is_empty());
}

#[test]
fn path_completion_from_a_listing() {
    let listing = vec![
        ("configs".to_string(), EntryKind::Dir),
        ("config.toml".to_string(), EntryKind::File),
        ("config.json".to_string(), EntryKind::File),
        ("notes.txt".to_string(), EntryKind::File),
        (".hidden.toml".to_string(), EntryKind::File),
        (".hiddendir".to_string(), EntryKind::Dir),
        ("aaa".to_string(), EntryKind::Dir),
    ];
    let got = complete_from_listing("/r/conf", None, 12, &listing);
    assert_eq!(
        got,
        vec![
            ("/r/configs/".to_string(), true),
            ("/r/config.json".to_string(), false),
            ("/r/config.toml".to_string(), false)
        ]
    );
    let toml_only = vec!["TOML".to_string()];
    let got = complete_from_listing("/r/", Some(&toml_only), 12, &listing);
    assert_eq!(
        got,
        vec![
            ("/r/aaa/".to_string(), true),
            ("/r/configs/".to_string(), true),
            ("/r/config.toml".to_string(), false)
        ]
    );
    let hidden = complete_from_listing(".", None, 12, &listing);
    assert_eq!(
        hidden,
        vec![
            (".hiddendir/".to_string(), true),
            (".hidden.toml".to_string(), false)
        ]
    );
    assert_eq!(complete_from_listing("", None, 2, &listing).len(), 2);
}

#[test]
fn path_completion_directories_and_labels() {
    assert_eq!(completion_dir("conf", Some("/home/x")), ".");
    assert_eq!(completion_dir("~/conf", Some("/home/x")), "/home/x/");
    assert_eq!(completion_dir("sub/conf", None), "sub/");
    assert_eq!(expand_tilde("~", Some("/home/x")), "/home/x");
    assert_eq!(expand_tilde("~/a", None), "~/a");
    let s = suggestions(vec![
        ("sub/configs/".to_string(), true),
        ("config.toml".to_string(), false),
    ]);
    assert_eq!(s[0].label, "configs/");
    assert!(s[0].partial);
    assert_eq!(s[1].label, "config.toml");
    let p = FsPathProvider::with_extensions(&["pem", "crt"]);
    assert_eq!(p.extensions, Some(vec!["pem".to_string(), "crt".to_string()]));
}

// ---- NonEmpty / Address / Bitmask, case by case ----

#[test]
fn non_empty_rejects_empty() {
    assert!(matches!(NonEmpty::validate(""), ValidateResult::Error(_)));
}

#[test]
fn non_empty_accepts_text() {
    assert!(matches!(NonEmpty::validate("hello"), ValidateResult::Neutral));
    assert!(matches!(NonEmpty::validate(" "), ValidateResult::Neutral));
}

#[test]
fn address_virtual_keyword() {
    assert!(matches!(Address::validate("virtual"), ValidateResult::Success));
}

#[test]
fn address_valid_i16() {
    assert!(matches!(Address::validate("0"), ValidateResult::Neutral));
    assert!(matches!(Address::validate("32767"), ValidateResult::Neutral));
    assert!(matches!(Address::validate("-32768"), ValidateResult::Neutral));
    assert!(matches!(Address::validate("100"), ValidateResult::Neutral));
}

#[test]
fn address_overflow_i16() {
    assert!(matches!(Address::validate("32768"), ValidateResult::Error(_)));
    assert!(matches!(Address::validate("-32769"), ValidateResult::Error(_)));
    assert!(matches!(Address::validate("99999"), ValidateResult::Error(_)));
}

#[test]
fn address_non_numeric() {
    assert!(matches!(Address::validate("abc"), ValidateResult::Error(_)));
    assert!(matches!(Address::validate(""), ValidateResult::Error(_)));
}

#[test]
fn bitmask_empty_is_none() {
    assert!(matches!(Bitmask::validate(""), ValidateResult::Neutral));
}

#[test]
fn bitmask_valid_hex_lowercase_prefix() {
    assert!(matches!(Bitmask::validate("0xFF"), ValidateResult::Neutral));
    assert!(matches!(Bitmask::validate("0x0"), ValidateResult::Neutral));
    assert!(matches!(Bitmask::validate("0xDEADBEEF"), ValidateResult::Neutral));
}

#[test]
fn bitmask_valid_hex_uppercase_prefix() {
    assert!(matches!(Bitmask::validate("0XFF"), ValidateResult::Neutral));
    assert!(matches!(Bitmask::validate("0X0"), ValidateResult::Neutral));
}

#[test]
fn bitmask_invalid_hex() {
    assert!(matches!(Bitmask::validate("0xGG"), ValidateResult::Error(_)));
    assert!(matches!(Bitmask::validate("0x"), ValidateResult::Error(_)));
}

#[test]
fn bitmask_valid_decimal() {
    assert!(matches!(Bitmask::validate("0"), ValidateResult::Neutral));
    assert!(matches!(Bitmask::validate("255"), ValidateResult::Neutral));
    assert!(matches!(
        Bitmask::validate("340282366920938463463374607431768211455"),
        ValidateResult::Neutral
    ));
}

#[test]
fn bitmask_invalid_decimal() {
    assert!(matches!(Bitmask::validate("abc"), ValidateResult::Error(_)));
    assert!(matches!(Bitmask::validate("-1"), ValidateResult::Error(_)));
}

// ---- The close-confirm popup ----

#[test]
fn ut_enter_closes() {
    assert_eq!(close_confirm_event(true, ConfirmKey::Enter), CloseConfirmEvent::Close);
}

#[test]
fn ut_space_closes() {
    assert_eq!(close_confirm_event(true, ConfirmKey::Char(' ')), CloseConfirmEvent::Close);
}

#[test]
fn ut_esc_dismisses() {
    assert_eq!(close_confirm_event(true, ConfirmKey::Esc), CloseConfirmEvent::Dismiss);
}

#[test]
fn ut_modified_keys_consumed() {
    for key in [ConfirmKey::Enter, ConfirmKey::Char(' '), ConfirmKey::Esc] {
        assert_eq!(close_confirm_event(false, key), CloseConfirmEvent::Consumed);
    }
}

#[test]
fn ut_other_keys_consumed() {
    assert_eq!(close_confirm_event(true, ConfirmKey::Char('q')), CloseConfirmEvent::Consumed);
    assert_eq!(close_confirm_event(true, ConfirmKey::Char('a')), CloseConfirmEvent::Consumed);
    assert_eq!(close_confirm_event(true, ConfirmKey::Other), CloseConfirmEvent::Consumed);
}

// ---- The TLS section: gating and extract/prefill ----

#[test]
fn ut_sync_updates_role_and_level_predicates() {
    let mut section = TlsSection::new();
    section.sync(ClientOrServer::Server, EffectiveTlsLevel::Off);
    assert!(!section.show_server_cert());
    section.sync(ClientOrServer::Server, EffectiveTlsLevel::Tls);
    assert!(section.show_server_cert());
}

#[test]
fn ut_extract_server_self_signed_builds_config() {
    let mut section = TlsSection::new();
    section.sync(ClientOrServer::Server, EffectiveTlsLevel::Tls);
    section.self_signed = SelfSignedChoice::On;
    section.client_ca_files = vec!["client_ca.pem".to_string()];
    let extracted = section.extract();
    assert!(extracted.self_signed);
    let server_cert = ServerCertSource::resolve(extracted.self_signed, None, None).unwrap();
    assert_eq!(server_cert, ServerCertSource::SelfSigned);
}

#[test]
fn ut_extract_self_signed_excludes_stale_cert_key_text() {
    let mut section = TlsSection::new();
    section.sync(ClientOrServer::Server, EffectiveTlsLevel::Tls);
    section.cert_file = "s.crt".to_string();
    section.key_file = "s.key".to_string();
    section.self_signed = SelfSignedChoice::On;

    let extracted = section.extract();
    assert!(extracted.self_signed);
    assert_eq!(extracted.cert_file, "s.crt");
    assert_eq!(extracted.key_file, "s.key");
    let server_cert = ServerCertSource::resolve(
        extracted.self_signed,
        Some(extracted.cert_file.clone()),
        Some(extracted.key_file.clone()),
    )
    .unwrap();
    assert_eq!(server_cert, ServerCertSource::SelfSigned);
}

#[test]
fn ut_extract_skip_verify_excludes_stale_ca_file_text() {
    let mut section = TlsSection::new();
    section.sync(ClientOrServer::Client, EffectiveTlsLevel::Tls);
    section.ca_file = "ca.pem".to_string();
    section.skip_verify = SkipVerifyChoice::On;

    let extracted = section.extract();
    assert!(extracted.skip_verify);
    assert_eq!(extracted.ca_file, "ca.pem");
    let verification = ClientVerification::resolve(extracted.skip_verify, None);
    assert_eq!(verification, ClientVerification::SkipVerify);
}

#[test]
fn ut_extract_toggle_self_signed_back_off_restores_cert_key() {
    let cert = "ferrowl_tls_section_test_s.crt".to_string();
    let key = "ferrowl_tls_section_test_s.key".to_string();
    let mut section = TlsSection::new();
    section.sync(ClientOrServer::Server, EffectiveTlsLevel::Tls);
    section.cert_file = cert.clone();
    section.key_file = key.clone();
    section.self_signed = SelfSignedChoice::On;
    section.self_signed = SelfSignedChoice::Off;

    let extracted = section.extract();
    assert!(!extracted.self_signed);
    assert_eq!(extracted.cert_file, cert);
    assert_eq!(extracted.key_file, key);
}

#[test]
fn ut_prefill_client_mutual_tls_self_signed_round_trips() {
    let client = ClientTlsPolicy::MutualTls {
        client_verification: ClientVerification::default(),
        client_identity: ClientCertSource::SelfSigned,
    };
    let mut section = TlsSection::new();
    section.prefill(ClientOrServer::Client, None, Some(&client));
    section.sync(ClientOrServer::Client, EffectiveTlsLevel::MutualTls);

    let extracted = section.extract();
    assert!(extracted.self_signed);
    assert_eq!(extracted.client_cert_file, "");
    assert_eq!(extracted.client_key_file, "");
}

#[test]
fn tls_section_gates_individual_inputs() {
    let mut section = TlsSection::new();
    section.sync(ClientOrServer::Client, EffectiveTlsLevel::MutualTls);
    assert!(section.show_self_signed());
    assert!(section.show_client_cert());
    assert!(section.show_ca_file());
    assert!(!section.show_client_ca());
    section.skip_verify = SkipVerifyChoice::On;
    assert!(!section.show_ca_file());
    section.sync(ClientOrServer::Server, EffectiveTlsLevel::MutualTls);
    assert!(section.show_client_ca());
    assert!(!section.show_client_cert());
}

// ---- Adding a client-CA file ----

#[test]
fn ut_apply_requires_non_empty_path() {
    assert!(check_ca_file("", false, false).is_err());
    let ca = "/tmp/ferrowl_tls_section_test_nonempty.pem";
    assert_eq!(check_ca_file(&format!("  {ca}  "), true, false).unwrap(), ca);
}

#[test]
fn ut_apply_rejects_nonexistent_path() {
    let err = check_ca_file("/nonexistent/ca-does-not-exist.pem", false, false)
        .expect_err("nonexistent path must not apply");
    assert!(err.contains("not found"), "unexpected error: {err}");
}

#[test]
fn ut_apply_rejects_directory() {
    let err = check_ca_file("/tmp", true, true).expect_err("a directory must not apply");
    assert!(err.contains("directory"), "unexpected error: {err}");
}

#[test]
fn ut_apply_rejects_wrong_extension() {
    let err = check_ca_file("/tmp/ferrowl_tls_section_test_ca.txt", true, false)
        .expect_err("a .txt file must not apply");
    assert!(err.contains("extension"), "unexpected error: {err}");
    assert_eq!(
        err,
        "Path: unsupported extension (expected one of pem, crt, key): /tmp/ferrowl_tls_section_test_ca.txt"
    );
    assert!(check_ca_file("/tmp/ca.PEM", true, false).is_ok());
    assert!(check_ca_file("/tmp/ca.Key", true, false).is_ok());
    assert!(check_ca_file("/tmp/pem", true, false).is_err());
}

#[test]
fn ut_load_io_error() {
    // The reader meets a missing file, as reading `/no/such/ferrowl/device.toml` would.
    let e = ferrowl::config::load_with("/no/such/ferrowl/device.toml", |t: FileType| {
        assert_eq!(t, FileType::Toml);
        Err::<(), String>("No such file or directory (os error 2)".to_string())
    });
    assert!(matches!(e, Err(ConfigError::Io(_))));
}

#[test]
fn setup_values_create_and_apply() {
    use_setup_values();
}

fn setup_values() -> ferrowl::dialog::SetupValues {
    ferrowl::dialog::SetupValues {
        name: "evse-1".to_string(),
        role: Role::Client,
        endpoint: Endpoint::Tcp { ip: "10.0.0.5".to_string(), port: 502 },
        timeout_ms: Some(500),
        delay_ms: None,
        interval_ms: Some(1000),
    }
}

fn use_setup_values() {
    let spec = ferrowl::dialog::spec_from_setup(setup_values(), "configs/evse.toml".to_string());
    assert_eq!(spec.name, "evse-1");
    assert_eq!(spec.device, "configs/evse.toml");
    assert_eq!(spec.role, Role::Client);
    assert_eq!(spec.timeout_ms, Some(500));
    assert_eq!(spec.interval_ms, Some(1000));

    let mut existing = ferrowl::dialog::spec_from_setup(
        ferrowl::dialog::SetupValues {
            name: "old".to_string(),
            role: Role::Server,
            endpoint: Endpoint::Udp { ip: "0.0.0.0".to_string(), port: 1502 },
            timeout_ms: None,
            delay_ms: Some(5),
            interval_ms: None,
        },
        "configs/old.toml".to_string(),
    );
    ferrowl::dialog::apply_setup(&mut existing, setup_values());
    assert_eq!(existing.name, "evse-1");
    assert_eq!(existing.device, "configs/old.toml");
    assert_eq!(existing.role, Role::Client);
    assert_eq!(existing.endpoint, Endpoint::Tcp { ip: "10.0.0.5".to_string(), port: 502 });
    assert_eq!(existing.delay_ms, None);
}

#[test]
fn save_format_by_extension() {
    assert_eq!(ferrowl::config::save_format("s.toml"), Ok(FileType::Toml));
    assert_eq!(ferrowl::config::save_format("dir/s.JSON"), Ok(FileType::Json));
    assert_eq!(
        ferrowl::config::save_format("s.yaml"),
        Err("unknown format for 's.yaml' (use .toml or .json)".to_string())
    );
}

#[test]
fn delete_named_value_keeps_selections() {
    // Defaults carry the "no default" entry first.
    let mut values = vec!["off", "on", "auto"];
    let mut defaults = vec!["-", "off", "on", "auto"];
    // Delete "on" (selected at 1) while the default chooses "auto" (at 3).
    let (sel, dsel) = ferrowl::dialog::delete_named_value(&mut values, 1, &mut defaults, 3);
    assert_eq!(values, vec!["off", "auto"]);
    assert_eq!(defaults, vec!["-", "off", "auto"]);
    assert_eq!(sel, 1);
    assert_eq!(defaults[dsel], "auto");

    // Delete the last entry while the default chooses exactly it: back to "no default".
    let (sel, dsel) = ferrowl::dialog::delete_named_value(&mut values, 1, &mut defaults, 2);
    assert_eq!(values, vec!["off"]);
    assert_eq!(sel, 0);
    assert_eq!(dsel, 0);

    // Delete the only entry: the list empties, selection 0.
    let (sel, dsel) = ferrowl::dialog::delete_named_value(&mut values, 0, &mut defaults, 1);
    assert!(values.is_empty());
    assert_eq!(defaults, vec!["-"]);
    assert_eq!((sel, dsel), (0, 0));

    // An empty list is left alone.
    let (sel, dsel) = ferrowl::dialog::delete_named_value(&mut values, 0, &mut defaults, 0);
    assert_eq!((sel, dsel), (0, 0));
    assert_eq!(defaults, vec!["-"]);
}

#[test]
fn accept_then_delete_named_value() {
    let mut values = vec!["off".to_string()];
    let mut defaults = vec!["-".to_string(), "off".to_string()];
    let sel = ferrowl::dialog::accept_named_value(
        &mut values,
        &mut defaults,
        "on".to_string(),
        "on".to_string(),
    );
    assert_eq!(sel, 1);
    assert_eq!(values, vec!["off".to_string(), "on".to_string()]);
    assert_eq!(defaults.len(), 3);
    let (_, dsel) = ferrowl::dialog::delete_named_value(&mut values, sel, &mut defaults, 1);
    assert_eq!(values, vec!["off".to_string()]);
    assert_eq!(defaults, vec!["-".to_string(), "off".to_string()]);
    assert_eq!(dsel, 1);
}

#[test]
fn ranges_fit_check_flags_overlong_ranges() {
    assert!(ferrowl::config::ranges_fit_check("0-100,140-160"));
    assert!(ferrowl::config::ranges_fit_check("5, x, 9-3"));
    assert!(ferrowl::config::ranges_fit_check(""));
    let all = format!("0-{}", usize::MAX);
    assert!(!ferrowl::config::ranges_fit_check(&all));
    let almost = format!("1-{}", usize::MAX);
    assert!(ferrowl::config::ranges_fit_check(&almost));
}
