//! The TLS policies' config-file (wire) forms: each test states the document as the fields it
//! sets (all others absent or false) and the value it reads as, or the value and the fields it
//! is written as.
use ferrowl::tls::{
    ClientCertSource, ClientCertVerification, ClientTlsPolicy, ClientVerification,
    RawClientCertSource, RawClientCertVerification, RawClientTlsPolicy, RawClientVerification,
    RawServerCert, RawServerTlsPolicy, ServerCertSource, ServerTlsPolicy,
};

fn s(v: &str) -> String {
    v.to_string()
}

// --- ServerTlsPolicy ------------------------------------------------------------------------

#[test]
fn ut_server_tls_policy_deserialize_empty_is_tls_unset() {
    let p = ServerTlsPolicy::from_raw(RawServerTlsPolicy::default()).unwrap();
    assert_eq!(p, ServerTlsPolicy::Tls { server_cert: ServerCertSource::Unset });
}

#[test]
fn ut_server_tls_policy_deserialize_mutual_tls_verify() {
    let raw = RawServerTlsPolicy {
        self_signed: true,
        require_client_cert: true,
        client_ca_files: vec![s("a.pem"), s("b.pem")],
        ..Default::default()
    };
    assert_eq!(
        ServerTlsPolicy::from_raw(raw).unwrap(),
        ServerTlsPolicy::MutualTls {
            server_cert: ServerCertSource::SelfSigned,
            client_verification: ClientCertVerification::Verify {
                ca_files: vec![s("a.pem"), s("b.pem")]
            }
        }
    );
}

#[test]
fn ut_server_tls_policy_deserialize_mutual_tls_skip_verify() {
    let raw = RawServerTlsPolicy {
        self_signed: true,
        require_client_cert: true,
        client_cert_skip_verify: true,
        ..Default::default()
    };
    assert_eq!(
        ServerTlsPolicy::from_raw(raw).unwrap(),
        ServerTlsPolicy::MutualTls {
            server_cert: ServerCertSource::SelfSigned,
            client_verification: ClientCertVerification::SkipVerify,
        }
    );
}

#[test]
fn ut_server_tls_policy_deserialize_mutual_tls_empty_ca_files_is_error() {
    let raw = RawServerTlsPolicy {
        self_signed: true,
        require_client_cert: true,
        ..Default::default()
    };
    assert!(ServerTlsPolicy::from_raw(raw).is_err());
}

#[test]
fn ut_server_tls_policy_deserialize_legacy_singular_client_ca_file() {
    let raw = RawServerTlsPolicy {
        cert_file: Some(s("s.crt")),
        key_file: Some(s("s.key")),
        require_client_cert: true,
        client_ca_file: Some(s("legacy-ca.pem")),
        ..Default::default()
    };
    assert_eq!(
        ServerTlsPolicy::from_raw(raw).unwrap(),
        ServerTlsPolicy::MutualTls {
            server_cert: ServerCertSource::Explicit {
                cert_file: s("s.crt"),
                key_file: s("s.key"),
            },
            client_verification: ClientCertVerification::Verify {
                ca_files: vec![s("legacy-ca.pem")]
            }
        }
    );
}

#[test]
fn ut_server_tls_policy_serde_round_trip() {
    let tls = ServerTlsPolicy::Tls { server_cert: ServerCertSource::SelfSigned };
    let raw = tls.to_raw();
    assert_eq!(raw, RawServerTlsPolicy { self_signed: true, ..Default::default() });
    assert_eq!(ServerTlsPolicy::from_raw(raw).unwrap(), tls);

    let mtls = ServerTlsPolicy::MutualTls {
        server_cert: ServerCertSource::SelfSigned,
        client_verification: ClientCertVerification::Verify { ca_files: vec![s("ca.pem")] },
    };
    let raw = mtls.to_raw();
    assert_eq!(
        raw,
        RawServerTlsPolicy {
            self_signed: true,
            require_client_cert: true,
            client_ca_files: vec![s("ca.pem")],
            ..Default::default()
        }
    );
    assert_eq!(ServerTlsPolicy::from_raw(raw).unwrap(), mtls);
}

#[test]
fn ut_server_tls_policy_notls_serializes_as_tls_unset_asymmetry() {
    let no_tls = ServerTlsPolicy::NoTls;
    let tls_unset = ServerTlsPolicy::Tls { server_cert: ServerCertSource::Unset };
    assert_eq!(no_tls.to_raw(), tls_unset.to_raw());
    assert_eq!(ServerTlsPolicy::from_raw(no_tls.to_raw()).unwrap(), tls_unset);
}

// --- ClientTlsPolicy ------------------------------------------------------------------------

#[test]
fn ut_client_tls_policy_deserialize_empty_is_tls_default_verify() {
    assert_eq!(
        ClientTlsPolicy::from_raw(RawClientTlsPolicy::default()).unwrap(),
        ClientTlsPolicy::Tls { client_verification: ClientVerification::Verify { ca_file: None } }
    );
}

#[test]
fn ut_client_tls_policy_deserialize_mutual_tls_self_signed() {
    let raw = RawClientTlsPolicy { client_self_signed: true, ..Default::default() };
    assert_eq!(
        ClientTlsPolicy::from_raw(raw).unwrap(),
        ClientTlsPolicy::MutualTls {
            client_verification: ClientVerification::Verify { ca_file: None },
            client_identity: ClientCertSource::SelfSigned,
        }
    );
}

#[test]
fn ut_client_tls_policy_deserialize_mutual_tls_explicit() {
    let raw = RawClientTlsPolicy {
        client_cert_file: Some(s("c.pem")),
        client_key_file: Some(s("k.pem")),
        ..Default::default()
    };
    assert_eq!(
        ClientTlsPolicy::from_raw(raw).unwrap(),
        ClientTlsPolicy::MutualTls {
            client_verification: ClientVerification::Verify { ca_file: None },
            client_identity: ClientCertSource::Explicit {
                client_cert_file: s("c.pem"),
                client_key_file: s("k.pem"),
            },
        }
    );
}

#[test]
fn ut_client_tls_policy_serde_round_trip() {
    let tls = ClientTlsPolicy::Tls { client_verification: ClientVerification::SkipVerify };
    let raw = tls.to_raw();
    assert_eq!(raw, RawClientTlsPolicy { insecure_skip_verify: true, ..Default::default() });
    assert_eq!(ClientTlsPolicy::from_raw(raw).unwrap(), tls);

    let mtls = ClientTlsPolicy::MutualTls {
        client_verification: ClientVerification::Verify { ca_file: None },
        client_identity: ClientCertSource::SelfSigned,
    };
    let raw = mtls.to_raw();
    assert_eq!(raw, RawClientTlsPolicy { client_self_signed: true, ..Default::default() });
    assert_eq!(ClientTlsPolicy::from_raw(raw).unwrap(), mtls);
}

#[test]
fn ut_client_tls_policy_notls_serializes_as_tls_default_asymmetry() {
    let no_tls = ClientTlsPolicy::NoTls;
    let tls_default =
        ClientTlsPolicy::Tls { client_verification: ClientVerification::Verify { ca_file: None } };
    assert_eq!(no_tls.to_raw(), tls_default.to_raw());
    assert_eq!(ClientTlsPolicy::from_raw(no_tls.to_raw()).unwrap(), tls_default);
}

// --- ClientCertVerification -----------------------------------------------------------------

#[test]
fn ut_client_cert_verification_serde_round_trip() {
    let skip = ClientCertVerification::SkipVerify;
    let raw = skip.to_raw();
    assert_eq!(
        raw,
        RawClientCertVerification { client_cert_skip_verify: true, ..Default::default() }
    );
    assert_eq!(ClientCertVerification::from_raw(raw).unwrap(), skip);

    let verify = ClientCertVerification::Verify { ca_files: vec![s("ca.pem")] };
    let raw = verify.to_raw();
    assert_eq!(
        raw,
        RawClientCertVerification { client_ca_files: vec![s("ca.pem")], ..Default::default() }
    );
    assert_eq!(ClientCertVerification::from_raw(raw).unwrap(), verify);
}

#[test]
fn ut_client_cert_verification_deserialize_legacy_singular_ca_file() {
    let raw = RawClientCertVerification {
        client_ca_file: Some(s("legacy.pem")),
        ..Default::default()
    };
    assert_eq!(
        ClientCertVerification::from_raw(raw).unwrap(),
        ClientCertVerification::Verify { ca_files: vec![s("legacy.pem")] }
    );
}

#[test]
fn ut_client_cert_verification_deserialize_plural_wins_over_legacy_singular() {
    let raw = RawClientCertVerification {
        client_ca_file: Some(s("legacy.pem")),
        client_ca_files: vec![s("new.pem")],
        ..Default::default()
    };
    assert_eq!(
        ClientCertVerification::from_raw(raw).unwrap(),
        ClientCertVerification::Verify { ca_files: vec![s("new.pem")] }
    );
}

#[test]
fn ut_client_cert_verification_deserialize_empty_is_error() {
    assert!(ClientCertVerification::from_raw(RawClientCertVerification::default()).is_err());
}

// --- ClientCertSource -----------------------------------------------------------------------

#[test]
fn ut_client_cert_source_deserialize_self_signed_wins_over_explicit_files() {
    let raw = RawClientCertSource {
        client_self_signed: true,
        client_cert_file: Some(s("c.pem")),
        client_key_file: Some(s("k.pem")),
    };
    assert_eq!(ClientCertSource::from_raw(raw).unwrap(), ClientCertSource::SelfSigned);
}

#[test]
fn ut_client_cert_source_deserialize_one_file_alone_is_error() {
    let raw = RawClientCertSource { client_cert_file: Some(s("c.pem")), ..Default::default() };
    assert!(ClientCertSource::from_raw(raw).is_err());
}

#[test]
fn ut_client_cert_source_deserialize_neither_set_is_error() {
    assert!(ClientCertSource::from_raw(RawClientCertSource::default()).is_err());
}

#[test]
fn ut_client_cert_source_serde_round_trip() {
    let self_signed = ClientCertSource::SelfSigned;
    let raw = self_signed.to_raw();
    assert_eq!(raw, RawClientCertSource { client_self_signed: true, ..Default::default() });
    assert_eq!(ClientCertSource::from_raw(raw).unwrap(), self_signed);

    let explicit = ClientCertSource::Explicit {
        client_cert_file: s("c.pem"),
        client_key_file: s("k.pem"),
    };
    let raw = explicit.to_raw();
    assert_eq!(
        raw,
        RawClientCertSource {
            client_cert_file: Some(s("c.pem")),
            client_key_file: Some(s("k.pem")),
            client_self_signed: false,
        }
    );
    assert_eq!(ClientCertSource::from_raw(raw).unwrap(), explicit);
}

// --- ServerCertSource -----------------------------------------------------------------------

#[test]
fn ut_server_cert_source_serde_round_trip_explicit() {
    let v = ServerCertSource::Explicit { cert_file: s("c"), key_file: s("k") };
    let raw = v.to_raw();
    assert_eq!(
        raw,
        RawServerCert { cert_file: Some(s("c")), key_file: Some(s("k")), self_signed: false }
    );
    assert_eq!(ServerCertSource::from_raw(raw).unwrap(), v);
}

#[test]
fn ut_server_cert_source_serde_round_trip_self_signed() {
    let v = ServerCertSource::SelfSigned;
    let raw = v.to_raw();
    assert_eq!(raw, RawServerCert { self_signed: true, ..Default::default() });
    assert_eq!(ServerCertSource::from_raw(raw).unwrap(), v);
}

#[test]
fn ut_server_cert_source_serde_round_trip_unset() {
    let v = ServerCertSource::Unset;
    let raw = v.to_raw();
    assert_eq!(raw, RawServerCert::default());
    assert_eq!(ServerCertSource::from_raw(raw).unwrap(), v);
}

#[test]
fn ut_server_cert_source_deserialize_self_signed_wins_over_present_cert_file() {
    let raw = RawServerCert {
        self_signed: true,
        cert_file: Some(s("c")),
        key_file: Some(s("k")),
    };
    assert_eq!(ServerCertSource::from_raw(raw).unwrap(), ServerCertSource::SelfSigned);
}

#[test]
fn ut_server_cert_source_deserialize_alone_is_serde_error() {
    let raw = RawServerCert { cert_file: Some(s("c")), ..Default::default() };
    assert!(ServerCertSource::from_raw(raw).is_err());
}

// --- ClientVerification ---------------------------------------------------------------------

#[test]
fn ut_client_verification_serde_round_trip() {
    let skip = ClientVerification::SkipVerify;
    let raw = skip.to_raw();
    assert_eq!(raw, RawClientVerification { insecure_skip_verify: true, ca_file: None });
    assert_eq!(ClientVerification::from_raw(raw), skip);

    let verify = ClientVerification::Verify { ca_file: Some(s("ca")) };
    let raw = verify.to_raw();
    assert_eq!(raw, RawClientVerification { ca_file: Some(s("ca")), insecure_skip_verify: false });
    assert_eq!(ClientVerification::from_raw(raw), verify);
}
