use ferrowl::bridge::{parse_bridge_descriptor, BridgeEndpointKind};
use ferrowl::tls::{
    ClientCertSource, ClientCertVerification, ClientTlsPolicy, ClientVerification,
    ServerCertSource, ServerTlsPolicy,
};

#[test]
fn ut_parse_bridge_descriptor_tcp_defaults() {
    let spec = parse_bridge_descriptor("port=502").unwrap();
    assert!(spec.unit_ids.is_none());
    match spec.kind {
        BridgeEndpointKind::Tcp(cfg) => {
            assert_eq!(cfg.ip, "127.0.0.1");
            assert_eq!(cfg.port, 502);
            assert_eq!(cfg.timeout_ms, 3000);
            assert!(cfg.reconnect);
            assert!(cfg.tls.is_none());
        }
        _ => panic!("expected Tcp"),
    }
}

#[test]
fn ut_parse_bridge_descriptor_rtu_over_tcp_full() {
    let spec = parse_bridge_descriptor(
        "transport=rtu_over_tcp,ip=10.0.0.9,port=1502,timeout_ms=500,reconnect=false",
    )
    .unwrap();
    match spec.kind {
        BridgeEndpointKind::RtuOverTcp(cfg) => {
            assert_eq!(cfg.ip, "10.0.0.9");
            assert_eq!(cfg.port, 1502);
            assert_eq!(cfg.timeout_ms, 500);
            assert!(!cfg.reconnect);
        }
        _ => panic!("expected RtuOverTcp"),
    }
}

#[test]
fn ut_parse_bridge_descriptor_rtu_over_tcp_requires_port() {
    assert!(parse_bridge_descriptor("transport=rtu_over_tcp").is_err());
}

#[test]
fn ut_parse_bridge_descriptor_ascii_over_tcp_full() {
    let spec = parse_bridge_descriptor(
        "transport=ascii_over_tcp,ip=10.0.0.10,port=1503,timeout_ms=500,reconnect=false",
    )
    .unwrap();
    match spec.kind {
        BridgeEndpointKind::AsciiOverTcp(cfg) => {
            assert_eq!(cfg.ip, "10.0.0.10");
            assert_eq!(cfg.port, 1503);
            assert_eq!(cfg.timeout_ms, 500);
            assert!(!cfg.reconnect);
        }
        _ => panic!("expected AsciiOverTcp"),
    }
}

#[test]
fn ut_parse_bridge_descriptor_ascii_over_tcp_requires_port() {
    assert!(parse_bridge_descriptor("transport=ascii_over_tcp").is_err());
}

#[test]
fn ut_parse_bridge_descriptor_over_tcp_variants_accept_tls() {
    for transport in ["rtu_over_tcp", "ascii_over_tcp"] {
        let spec =
            parse_bridge_descriptor(&format!("transport={transport},port=502,self_signed=true"))
                .unwrap();
        let tls = match spec.kind {
            BridgeEndpointKind::RtuOverTcp(cfg) => cfg.tls,
            BridgeEndpointKind::AsciiOverTcp(cfg) => cfg.tls,
            _ => panic!("expected an over-tcp variant"),
        };
        assert!(tls.is_some(), "{transport} must accept tls fields");
    }
}

#[test]
fn ut_parse_bridge_descriptor_rtu_full() {
    let spec = parse_bridge_descriptor(
        "transport=rtu,path=/dev/ttyUSB0,baud=9600,parity=even,data_bits=7,stop_bits=2,\
         timeout_ms=500,reconnect=false,unit_ids=1,3",
    )
    .unwrap();
    assert_eq!(spec.unit_ids.as_deref(), Some("1,3"));
    match spec.kind {
        BridgeEndpointKind::Rtu(cfg) => {
            assert_eq!(cfg.path, "/dev/ttyUSB0");
            assert_eq!(cfg.baud_rate, 9600);
            assert_eq!(cfg.parity.as_deref(), Some("even"));
            assert_eq!(cfg.data_bits, Some(7));
            assert_eq!(cfg.stop_bits, Some(2));
            assert_eq!(cfg.timeout_ms, 500);
            assert!(!cfg.reconnect);
            assert_eq!(cfg.slave, 1);
        }
        _ => panic!("expected Rtu"),
    }
}

#[test]
fn unit_id_list_keeps_its_ranges() {
    let spec = parse_bridge_descriptor("port=1,unit_ids=1, 3,5-8 ,timeout_ms=9").unwrap();
    assert_eq!(spec.unit_ids.as_deref(), Some("1,3,5-8"));
    match spec.kind {
        BridgeEndpointKind::Tcp(cfg) => assert_eq!(cfg.timeout_ms, 9),
        _ => panic!("expected Tcp"),
    }
}

#[test]
fn continuation_without_a_key_is_an_error() {
    assert_eq!(
        parse_bridge_descriptor("oops,port=1").err(),
        Some("expected key=value, got 'oops'".to_string())
    );
}

#[test]
fn ut_parse_bridge_descriptor_tls_opt_in() {
    let no_tls = parse_bridge_descriptor("port=502").unwrap();
    match no_tls.kind {
        BridgeEndpointKind::Tcp(cfg) => assert!(cfg.tls.is_none()),
        _ => unreachable!(),
    }
    let with_tls = parse_bridge_descriptor("port=502,self_signed=true").unwrap();
    match with_tls.kind {
        BridgeEndpointKind::Tcp(cfg) => {
            let tls = cfg.tls.expect("tls present");
            assert_eq!(
                tls.server,
                ServerTlsPolicy::Tls {
                    server_cert: ServerCertSource::SelfSigned
                }
            );
            assert_eq!(
                tls.client,
                ClientTlsPolicy::Tls {
                    client_verification: ClientVerification::Verify { ca_file: None }
                }
            );
        }
        _ => unreachable!(),
    }
}

#[test]
fn ut_parse_bridge_descriptor_tls_self_signed_wins_over_cert_files() {
    let parsed =
        parse_bridge_descriptor("port=502,self_signed=true,cert_file=s.crt,key_file=s.key").unwrap();
    match parsed.kind {
        BridgeEndpointKind::Tcp(cfg) => {
            let tls = cfg.tls.expect("tls present");
            assert_eq!(
                tls.server,
                ServerTlsPolicy::Tls {
                    server_cert: ServerCertSource::SelfSigned
                }
            );
        }
        _ => unreachable!(),
    }
}

#[test]
fn mutual_tls_descriptor() {
    let parsed = parse_bridge_descriptor(
        "port=502,require_client_cert=true,client_ca_file=ca.pem,cert_file=s.crt,key_file=s.key,\
         client_cert_file=c.crt,client_key_file=c.key,insecure_skip_verify=true",
    )
    .unwrap();
    match parsed.kind {
        BridgeEndpointKind::Tcp(cfg) => {
            let tls = cfg.tls.expect("tls present");
            assert_eq!(
                tls.server,
                ServerTlsPolicy::MutualTls {
                    server_cert: ServerCertSource::Explicit {
                        cert_file: "s.crt".to_string(),
                        key_file: "s.key".to_string()
                    },
                    client_verification: ClientCertVerification::Verify {
                        ca_files: vec!["ca.pem".to_string()]
                    }
                }
            );
            assert_eq!(
                tls.client,
                ClientTlsPolicy::MutualTls {
                    client_verification: ClientVerification::SkipVerify,
                    client_identity: ClientCertSource::Explicit {
                        client_cert_file: "c.crt".to_string(),
                        client_key_file: "c.key".to_string()
                    }
                }
            );
        }
        _ => unreachable!(),
    }
    assert_eq!(
        parse_bridge_descriptor("port=502,require_client_cert=true").err(),
        Some("ca_files must be non-empty when client_cert_skip_verify is unset".to_string())
    );
    assert_eq!(
        parse_bridge_descriptor("port=502,self_signed=yes").err(),
        Some("invalid 'self_signed' value 'yes' (expected true|false)".to_string())
    );
}

#[test]
fn ut_parse_bridge_descriptor_tls_cert_file_alone_is_error() {
    assert!(parse_bridge_descriptor("port=502,cert_file=s.crt").is_err());
}

#[test]
fn ut_parse_bridge_descriptor_rejects_invalid_transport_and_missing_required() {
    assert!(parse_bridge_descriptor("transport=usb,port=502").is_err());
    assert!(parse_bridge_descriptor("transport=tcp").is_err());
    assert!(parse_bridge_descriptor("transport=rtu").is_err());
    assert_eq!(
        parse_bridge_descriptor("transport=tcp").err(),
        Some("tcp descriptor requires 'port'".to_string())
    );
}

#[test]
fn ut_parse_bridge_descriptor_rejects_bad_reconnect_value() {
    assert!(parse_bridge_descriptor("port=502,reconnect=maybe").is_err());
    assert_eq!(
        parse_bridge_descriptor("port=502,reconnect=maybe").err(),
        Some("invalid 'reconnect' value 'maybe' (expected true|false)".to_string())
    );
}
