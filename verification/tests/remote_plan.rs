use tonk_worker::config::{BranchConfiguration, RemoteConfiguration, RepositoryConfiguration, UpstreamConfiguration};
use tonk_worker::errors::RepositoryError;
use tonk_worker::remote_plan::{
    already_tracking, asks_nothing, ensure_remote, prepare_remote, upstream_wiring, ExistingRemote, RemoteAction,
    UnknownRemoteWording,
};

fn remote(address: &str) -> RemoteConfiguration {
    RemoteConfiguration::new(address.to_string())
}

#[test]
fn it_keeps_an_existing_remote_as_it_is() {
    let request = remote("https://form-repair.example.test/ucan/").revocation_url("https://relay/".to_string());
    let existing = ExistingRemote {
        subject: "did:key:zSpace".to_string(),
        address: "https://actual-sync.example.test/ucan/".to_string(),
    };
    let (effective, action) = ensure_remote(&request, "did:key:zSpace", Some(existing));
    assert_eq!(effective.address, "https://actual-sync.example.test/ucan/");
    assert_eq!(effective.subject.as_deref(), Some("did:key:zSpace"));
    assert_eq!(effective.revocation_url.as_deref(), Some("https://relay/"));
    assert!(matches!(action, RemoteAction::Reuse));
}

#[test]
fn it_creates_a_missing_remote_with_the_default_subject() {
    let (effective, action) = ensure_remote(&remote("https://hub/ucan/"), "did:key:zSpace", None);
    assert_eq!(effective.subject.as_deref(), Some("did:key:zSpace"));
    assert!(matches!(action, RemoteAction::Create { ref address, subject: None } if address == "https://hub/ucan/"));
}

#[test]
fn it_refuses_an_existing_remote_configured_differently_on_creation() {
    let existing = ExistingRemote { subject: "did:key:zSpace".to_string(), address: "https://a/".to_string() };
    match prepare_remote("origin", &remote("https://b/"), "did:key:zSpace", Some(existing.clone())) {
        Err(RepositoryError::InvalidConfiguration(m)) => assert_eq!(m, "Remote 'origin' is already configured differently"),
        other => panic!("expected a refusal, got {other:?}"),
    }
    assert!(matches!(prepare_remote("origin", &remote("https://a/"), "did:key:zSpace", Some(existing)), Ok(RemoteAction::Reuse)));
    assert!(matches!(prepare_remote("origin", &remote("https://a/"), "did:key:zSpace", None), Ok(RemoteAction::Create { .. })));
}

#[test]
fn it_wires_only_upstreams_on_requested_remotes() {
    let config = RepositoryConfiguration::new()
        .remote("origin".to_string(), remote("https://hub/ucan/"))
        .branch("main".to_string(), BranchConfiguration::new().upstream("origin".to_string(), "main".to_string()))
        .branch("scratch".to_string(), BranchConfiguration::new());
    let wiring = upstream_wiring(&config, UnknownRemoteWording::NotInRequest).expect("valid");
    assert_eq!(wiring.len(), 1);
    assert_eq!(wiring[0].0, "main");
    let bad = RepositoryConfiguration::new()
        .branch("main".to_string(), BranchConfiguration::new().upstream("nowhere".to_string(), "main".to_string()));
    match upstream_wiring(&bad, UnknownRemoteWording::NotInRequest) {
        Err(RepositoryError::InvalidConfiguration(m)) => {
            assert_eq!(m, "Upstream for branch 'main' references remote 'nowhere', which is not in the request")
        },
        other => panic!("expected a refusal, got {other:?}"),
    }
    match upstream_wiring(&bad, UnknownRemoteWording::Unknown) {
        Err(RepositoryError::InvalidConfiguration(m)) => {
            assert_eq!(m, "Upstream for branch 'main' references unknown remote 'nowhere'")
        },
        other => panic!("expected a refusal, got {other:?}"),
    }
}

#[test]
fn it_leaves_a_branch_already_tracking_its_upstream() {
    let wanted = UpstreamConfiguration::new("origin".to_string(), "main".to_string());
    assert!(already_tracking(&Some(UpstreamConfiguration::new("origin".to_string(), "main".to_string())), &wanted));
    assert!(!already_tracking(&Some(UpstreamConfiguration::new("origin".to_string(), "dev".to_string())), &wanted));
    assert!(!already_tracking(&None, &wanted));
    assert!(asks_nothing(&RepositoryConfiguration::new()));
    assert!(!asks_nothing(&RepositoryConfiguration::new().branch("main".to_string(), BranchConfiguration::new())));
}

use tonk_worker::remote_plan::{effective_configuration, prepare_remotes};

#[test]
fn it_reports_the_configuration_that_took_effect() {
    let config = RepositoryConfiguration::new()
        .remote("origin".to_string(), remote("https://form/ucan/").revocation_url("https://relay/".to_string()))
        .remote("backup".to_string(), remote("https://backup/ucan/"))
        .branch("main".to_string(), BranchConfiguration::new().upstream("origin".to_string(), "main".to_string()));
    let existing = vec![
        Some(ExistingRemote { subject: "did:key:zSpace".to_string(), address: "https://actual/ucan/".to_string() }),
        None,
    ];
    let (effective, actions) = effective_configuration(config, "did:key:zSpace", &existing);
    let origin = effective.remote.get("origin").expect("origin stays");
    assert_eq!(origin.address, "https://actual/ucan/", "an attached remote is not repointed");
    assert_eq!(origin.subject.as_deref(), Some("did:key:zSpace"));
    assert_eq!(origin.revocation_url.as_deref(), Some("https://relay/"));
    let backup = effective.remote.get("backup").expect("backup is created");
    assert_eq!(backup.address, "https://backup/ucan/");
    assert_eq!(backup.subject.as_deref(), Some("did:key:zSpace"));
    assert_eq!(effective.remote.len(), 2);
    assert!(effective.branch.contains_key("main"));
    assert!(matches!(actions[0], RemoteAction::Reuse));
    assert!(matches!(actions[1], RemoteAction::Create { ref address, subject: None } if address == "https://backup/ucan/"));
}

#[test]
fn it_settles_on_the_same_remote_when_wired_again() {
    let request = remote("https://other-origin/ucan/");
    let first = ExistingRemote { subject: "did:key:zSpace".to_string(), address: "https://a/ucan/".to_string() };
    let (took, _) = ensure_remote(&request, "did:key:zSpace", Some(first));
    let again = ExistingRemote { subject: took.subject.clone().unwrap(), address: took.address.clone() };
    let (took_again, action) = ensure_remote(&request, "did:key:zSpace", Some(again));
    assert_eq!(took_again.address, took.address);
    assert_eq!(took_again.subject, took.subject);
    assert!(matches!(action, RemoteAction::Reuse));
    let wanted = UpstreamConfiguration { remote: "origin".to_string(), branch: "main".to_string() };
    assert!(already_tracking(&Some(wanted.clone()), &wanted), "a tracked upstream is not set again");
}

#[test]
fn it_prepares_remotes_until_the_first_conflict() {
    let config = RepositoryConfiguration::new()
        .remote("origin".to_string(), remote("https://a/"))
        .remote("mirror".to_string(), remote("https://m/"))
        .remote("late".to_string(), remote("https://l/"));
    let existing = vec![
        None,
        Some(ExistingRemote { subject: "did:key:zOther".to_string(), address: "https://m/".to_string() }),
        None,
    ];
    let (actions, error) = prepare_remotes(&config, "did:key:zSpace", &existing);
    assert_eq!(actions.len(), 1);
    assert!(matches!(actions[0], RemoteAction::Create { .. }));
    match error {
        Some(RepositoryError::InvalidConfiguration(m)) => assert_eq!(m, "Remote 'mirror' is already configured differently"),
        other => panic!("expected a refusal, got {other:?}"),
    }
    let agreeing = vec![
        Some(ExistingRemote { subject: "did:key:zSpace".to_string(), address: "https://a/".to_string() }),
        None,
        None,
    ];
    let (actions, error) = prepare_remotes(&config, "did:key:zSpace", &agreeing);
    assert!(error.is_none());
    assert_eq!(actions.len(), 3);
    assert!(matches!(actions[0], RemoteAction::Reuse));
}
