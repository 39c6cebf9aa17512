use tonk_worker::attach::{
    attach_configuration, attach_failed_detail, attaches_account_remote, enable_sync_remote, provisioning_refusal,
    space_label, space_labels,
};
use tonk_worker::errors::RepositoryError;

#[test]
fn it_attaches_the_named_endpoint_or_the_accounts() {
    assert_eq!(enable_sync_remote(Some("https://a/".to_string()), Some("https://acct/".to_string())).as_deref(), Some("https://a/"));
    assert_eq!(enable_sync_remote(None, Some("https://acct/".to_string())).as_deref(), Some("https://acct/"));
    assert!(enable_sync_remote(None, None).is_none());
}

#[test]
fn it_wires_nothing_for_a_blank_endpoint() {
    assert!(attach_configuration("  ").is_none());
    let config = attach_configuration(" https://hub/ucan/ ").expect("config");
    assert_eq!(config.remote.get("origin").expect("origin").address, "https://hub/ucan/");
    assert_eq!(config.remote.len(), 1);
    let main = config.branch.get("main").expect("main");
    let upstream = main.upstream.as_ref().expect("main tracks a remote branch");
    assert_eq!(upstream.remote, "origin");
    assert_eq!(upstream.branch, "main");
}

#[test]
fn it_fails_the_attach_only_on_a_definite_refusal_by_our_service() {
    match provisioning_refusal("k", true, false, "inactive") {
        Some(RepositoryError::Internal(m)) => assert_eq!(
            m,
            "enable sync 'k': the service refused to provision this space, and attaching its own remote anyway would wire the space to an upstream that refuses every request: inactive"
        ),
        other => panic!("expected a refusal, got {other:?}"),
    }
    assert!(provisioning_refusal("k", true, true, "busy").is_none());
    assert!(provisioning_refusal("k", false, false, "x").is_none());
    assert!(attaches_account_remote(false));
    assert!(!attaches_account_remote(true));
    assert_eq!(attach_failed_detail("offline"), "Could not turn on sync: offline");
}

#[test]
fn it_labels_spaces_by_name_or_key() {
    assert_eq!(space_label(Some("Garden".to_string()), "z6Mk"), "Garden");
    assert_eq!(space_label(None, "z6Mk"), "z6Mk");
    let rows = vec![
        ("repository".to_string(), "Untitled".to_string()),
        ("profile".to_string(), "me".to_string()),
        ("repository".to_string(), "Garden".to_string()),
    ];
    assert_eq!(space_labels(&rows, "repository"), vec!["Untitled".to_string(), "Garden".to_string()]);
}

use tonk_worker::attach::{enable_sync_finish, enable_sync_start, EnableSyncFinish, EnableSyncStart};
use tonk_worker::facts::EnableSyncArguments;

fn args(space: Option<&str>, remote: Option<&str>, share: bool) -> EnableSyncArguments {
    EnableSyncArguments { space: space.map(|s| s.to_string()), remote: remote.map(|s| s.to_string()), share }
}

#[test]
fn it_attaches_an_existing_space_and_mints_only_when_sharing() {
    let key = Some("zSpace".to_string());
    match enable_sync_start(args(Some("did:key:zSpace"), Some("https://example.test/ucan/"), true), None, key.clone(), true, true) {
        EnableSyncStart::Attach { key, remote, share } => {
            assert_eq!(key, "zSpace");
            assert_eq!(remote, "https://example.test/ucan/");
            assert!(share);
        },
        other => panic!("expected an attach, got {other:?}"),
    }
    match enable_sync_start(args(Some("did:key:zSpace"), None, false), Some("https://acct/".to_string()), key.clone(), true, true) {
        EnableSyncStart::Attach { remote, share, .. } => {
            assert_eq!(remote, "https://acct/");
            assert!(!share);
        },
        other => panic!("expected an attach, got {other:?}"),
    }
    assert!(matches!(enable_sync_start(args(None, Some("https://a/"), true), None, key.clone(), true, true), EnableSyncStart::Skip));
    assert!(matches!(enable_sync_start(args(Some("x"), None, true), None, key.clone(), true, true), EnableSyncStart::Skip));
    assert!(matches!(enable_sync_start(args(Some("x"), Some("https://a/"), true), None, None, true, true), EnableSyncStart::Skip));
    assert!(matches!(enable_sync_start(args(Some("x"), Some("https://a/"), true), None, key.clone(), false, true), EnableSyncStart::Skip));
    assert!(matches!(enable_sync_start(args(Some("x"), Some("https://a/"), true), None, key, true, false), EnableSyncStart::Skip));

    assert!(matches!(enable_sync_finish(true, Ok(()), true), EnableSyncFinish::Mint));
    assert!(matches!(enable_sync_finish(false, Ok(()), true), EnableSyncFinish::Nothing));
    match enable_sync_finish(true, Err("offline".to_string()), true) {
        EnableSyncFinish::ReportBlocked { reason, detail } => {
            assert_eq!(reason, "attach-failed");
            assert_eq!(detail, "Could not turn on sync: offline");
        },
        other => panic!("expected a report, got {other:?}"),
    }
    assert!(matches!(enable_sync_finish(false, Err("offline".to_string()), true), EnableSyncFinish::Nothing));
    assert!(matches!(enable_sync_finish(true, Err("offline".to_string()), false), EnableSyncFinish::Nothing));
}
