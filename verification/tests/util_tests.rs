use std::path::PathBuf;
use std::time::{Duration, SystemTime, UNIX_EPOCH};

use ferrowl::backoff::{AttemptOutcome, Backoff, BackoffAction, BackoffPolicy};
use ferrowl::convert::FileType;
use ferrowl::path::{base_dir_of_with_cwd, expand_with_home, relativize_under, resolve_against};
use ferrowl::time::now_unix_ms;
use ferrowl::tls::{ClientCertVerification, ClientVerification, ServerCertSource};
use ferrowl::Expect;

#[test]
fn ut_backoff_default_policy_matches_mb_r_051() {
    let policy = BackoffPolicy::default();
    assert_eq!(Duration::from_millis(policy.initial), Duration::from_secs(1));
    assert_eq!(Duration::from_millis(policy.max), Duration::from_secs(30));
}

fn failed(reset: bool) -> AttemptOutcome<&'static str> {
    AttemptOutcome::Failed {
        error: "boom",
        reconnect: true,
        reset,
    }
}

fn wait_of(action: BackoffAction<&'static str>) -> u64 {
    match action {
        BackoffAction::Wait(ms) => ms,
        BackoffAction::Finish(_) => panic!("expected a wait"),
    }
}

#[test]
fn backoff_doubles_and_caps() {
    let mut b = Backoff::new(BackoffPolicy::default());
    let mut secs = Vec::new();
    for _ in 0..8 {
        secs.push(wait_of(b.on_attempt(failed(false))) / 1000);
        assert!(b.after_wait::<&str>(false).is_none());
    }
    assert_eq!(secs, vec![1, 2, 4, 8, 16, 30, 30, 30]);
}

#[test]
fn backoff_resets_on_reset_flag() {
    let mut b = Backoff::new(BackoffPolicy::default());
    let mut secs = Vec::new();
    for reset in [false, true, false, false] {
        secs.push(wait_of(b.on_attempt(failed(reset))) / 1000);
        assert!(b.after_wait::<&str>(false).is_none());
    }
    assert_eq!(secs, vec![1, 1, 2, 4]);
}

#[test]
fn backoff_stops_when_reconnect_disabled() {
    let mut b = Backoff::new(BackoffPolicy::default());
    let action = b.on_attempt(AttemptOutcome::Failed {
        error: "boom",
        reconnect: false,
        reset: false,
    });
    assert!(matches!(action, BackoffAction::Finish(Err("boom"))));
}

#[test]
fn backoff_returns_ok_on_done_and_on_abort() {
    let mut b = Backoff::new(BackoffPolicy::default());
    assert!(matches!(
        b.on_attempt::<&str>(AttemptOutcome::Done),
        BackoffAction::Finish(Ok(()))
    ));
    let _ = b.on_attempt(failed(false));
    assert!(matches!(
        b.after_wait::<&str>(true),
        Some(BackoffAction::Finish(Ok(())))
    ));
}

#[test]
fn backoff_cap_near_the_top_of_the_range() {
    let policy = BackoffPolicy {
        initial: u64::MAX - 1,
        max: u64::MAX,
    };
    let mut b = Backoff::new(policy);
    assert_eq!(wait_of(b.on_attempt(failed(false))), u64::MAX - 1);
    assert!(b.after_wait::<&str>(false).is_none());
    assert_eq!(b.current, u64::MAX);
}

#[test]
fn ut_filetype_from_path() {
    assert_eq!(FileType::from_path("cfg.toml"), Some(FileType::Toml));
    assert_eq!(FileType::from_path("cfg.json"), Some(FileType::Json));
    assert_eq!(FileType::from_path("CFG.TOML"), Some(FileType::Toml));
    assert_eq!(FileType::from_path("CFG.Json"), Some(FileType::Json));
    assert_eq!(FileType::from_path("cfg.txt"), None);
    assert_eq!(FileType::from_path("noext"), None);
}

#[test]
fn filetype_from_path_uses_last_component_extension() {
    assert_eq!(FileType::from_path("dir.json/cfg.toml"), Some(FileType::Toml));
    assert_eq!(FileType::from_path(".toml"), None);
}

#[test]
fn ut_expect_ok_returns_value() {
    let result: Result<i32, &str> = Ok(42);
    let val = result.panic(|e| format!("error: {e}"));
    assert_eq!(val, 42);
}

#[test]
fn ut_now_unix_ms_tracks_system_clock() {
    let before = SystemTime::now()
        .duration_since(UNIX_EPOCH)
        .unwrap_or_default()
        .as_millis() as u64;
    let got = now_unix_ms();
    let after = SystemTime::now()
        .duration_since(UNIX_EPOCH)
        .unwrap_or_default()
        .as_millis() as u64;
    assert!(before <= got && got <= after, "{before} <= {got} <= {after}");
}

#[test]
fn ut_client_cert_verification_resolve_skip_verify_wins_over_ca_files() {
    let resolved = ClientCertVerification::resolve(true, vec!["ca.pem".to_string()]);
    assert_eq!(resolved, Ok(ClientCertVerification::SkipVerify));
}

#[test]
fn ut_client_cert_verification_resolve_verify_carries_ca_files() {
    let resolved =
        ClientCertVerification::resolve(false, vec!["a.pem".to_string(), "b.pem".to_string()]);
    assert_eq!(
        resolved,
        Ok(ClientCertVerification::Verify {
            ca_files: vec!["a.pem".to_string(), "b.pem".to_string()]
        })
    );
}

#[test]
fn ut_client_cert_verification_resolve_empty_ca_files_without_skip_verify_is_error() {
    assert!(ClientCertVerification::resolve(false, vec![]).is_err());
}

#[test]
fn ut_server_cert_source_resolve_self_signed_wins_over_explicit_files() {
    let resolved = ServerCertSource::resolve(true, Some("c".to_string()), Some("k".to_string()));
    assert_eq!(resolved, Ok(ServerCertSource::SelfSigned));
}

#[test]
fn ut_server_cert_source_resolve_explicit_when_both_set() {
    let resolved = ServerCertSource::resolve(false, Some("c".to_string()), Some("k".to_string()));
    assert_eq!(
        resolved,
        Ok(ServerCertSource::Explicit {
            cert_file: "c".to_string(),
            key_file: "k".to_string(),
        })
    );
}

#[test]
fn ut_server_cert_source_resolve_unset_when_neither_set() {
    assert_eq!(
        ServerCertSource::resolve(false, None, None),
        Ok(ServerCertSource::Unset)
    );
}

#[test]
fn ut_server_cert_source_resolve_alone_is_error() {
    assert!(ServerCertSource::resolve(false, Some("c".to_string()), None).is_err());
    assert!(ServerCertSource::resolve(false, None, Some("k".to_string())).is_err());
}

#[test]
fn server_cert_source_error_message() {
    assert_eq!(
        ServerCertSource::resolve(false, Some("c".to_string()), None),
        Err("cert_file and key_file must both be set, or neither".to_string())
    );
}

#[test]
fn ut_client_verification_resolve_skip_verify_wins_over_ca_file() {
    let resolved = ClientVerification::resolve(true, Some("ca".to_string()));
    assert_eq!(resolved, ClientVerification::SkipVerify);
}

#[test]
fn ut_client_verification_resolve_verify_carries_ca_file() {
    assert_eq!(
        ClientVerification::resolve(false, Some("ca".to_string())),
        ClientVerification::Verify {
            ca_file: Some("ca".to_string())
        }
    );
    assert_eq!(
        ClientVerification::resolve(false, None),
        ClientVerification::Verify { ca_file: None }
    );
}

#[test]
fn ut_expand_bare_tilde_with_fake_home() {
    assert_eq!(expand_with_home("~", Some("/home/x")), "/home/x");
}

#[test]
fn ut_expand_tilde_slash_rest_with_fake_home() {
    assert_eq!(
        expand_with_home("~/conf/dev.toml", Some("/home/x")),
        std::path::Path::new("/home/x")
            .join("conf/dev.toml")
            .to_string_lossy()
            .into_owned()
    );
}

#[test]
fn ut_expand_otheruser_tilde_passes_through() {
    assert_eq!(expand_with_home("~otheruser/x", Some("/home/x")), "~otheruser/x");
}

#[test]
fn ut_expand_non_tilde_path_passes_through_unchanged() {
    assert_eq!(expand_with_home("/abs/path", Some("/home/x")), "/abs/path");
}

#[test]
fn ut_expand_relative_non_tilde_path_passes_through_unchanged() {
    assert_eq!(expand_with_home("relative/path", Some("/home/x")), "relative/path");
}

#[test]
fn ut_expand_tilde_with_no_home_passes_through_unchanged() {
    assert_eq!(expand_with_home("~/conf", None), "~/conf");
    assert_eq!(expand_with_home("~", None), "~");
}

#[test]
fn ut_resolve_against_joins_relative_onto_base() {
    assert_eq!(
        resolve_against("/base/dir", "sub/dev.toml", Some("/home/x")),
        "/base/dir/sub/dev.toml"
    );
}

#[test]
fn ut_resolve_against_leaves_absolute_unchanged() {
    assert_eq!(
        resolve_against("/base/dir", "/abs/dev.toml", Some("/home/x")),
        "/abs/dev.toml"
    );
}

#[test]
fn ut_resolve_against_tilde_expands_and_ignores_base() {
    assert_eq!(
        resolve_against("/base/dir", "~/dev.toml", Some("/home/x")),
        "/home/x/dev.toml"
    );
}

#[test]
fn ut_base_dir_of_absolute_file_is_its_parent() {
    assert_eq!(
        PathBuf::from(base_dir_of_with_cwd("/a/b/session.toml", Some("/home/x"), Some("/cwd"))),
        PathBuf::from("/a/b")
    );
}

#[test]
fn ut_base_dir_of_relative_file_prepends_cwd() {
    assert_eq!(
        PathBuf::from(base_dir_of_with_cwd("sub/session.toml", Some("/home/x"), Some("/cwd"))),
        PathBuf::from("/cwd/sub")
    );
}

#[test]
fn ut_base_dir_of_bare_filename_is_cwd() {
    assert_eq!(
        PathBuf::from(base_dir_of_with_cwd("session.toml", Some("/home/x"), Some("/cwd"))),
        PathBuf::from("/cwd")
    );
}

#[test]
fn ut_resolve_against_blank_stays_blank() {
    assert_eq!(resolve_against("/base", "", None), "");
    assert_eq!(resolve_against("/base", "  ", None), "  ");
}

#[test]
fn ut_relativize_under_strips_base_prefix() {
    assert_eq!(
        relativize_under("/base/dir", "/base/dir/sub/dev.toml"),
        "sub/dev.toml"
    );
}

#[test]
fn ut_relativize_under_outside_base_stays_unchanged() {
    assert_eq!(
        relativize_under("/base/dir", "/other/dev.toml"),
        "/other/dev.toml"
    );
}

#[test]
fn ut_relativize_under_blank_stays_blank() {
    assert_eq!(relativize_under("/base", ""), "");
}

#[test]
fn ut_resolve_against_preserves_dot_dot_components() {
    assert_eq!(
        resolve_against("/base/dir", "../up/dev.toml", None),
        "/base/dir/../up/dev.toml"
    );
}

#[test]
fn ut_relativize_under_is_lexical_not_filesystem() {
    assert_eq!(relativize_under("/base/./dir", "/base/dir/dev.toml"), "dev.toml");
}

#[test]
fn millis_or_zero_truncates_and_zeroes() {
    assert_eq!(ferrowl::time::millis_or_zero(None), 0);
    assert_eq!(ferrowl::time::millis_or_zero(Some(1_700_000_000_000)), 1_700_000_000_000);
    assert_eq!(ferrowl::time::millis_or_zero(Some((1u128 << 64) + 3)), 3);
}

#[test]
fn file_type_of_extension_ignores_case() {
    use_file_type_of_extension();
}

fn use_file_type_of_extension() {
    assert_eq!(ferrowl::convert::file_type_of_extension(Some("TOML")), Some(ferrowl::convert::FileType::Toml));
    assert_eq!(ferrowl::convert::file_type_of_extension(Some("json")), Some(ferrowl::convert::FileType::Json));
    assert_eq!(ferrowl::convert::file_type_of_extension(Some("yaml")), None);
    assert_eq!(ferrowl::convert::file_type_of_extension(None), None);
}
