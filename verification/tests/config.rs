use tonk_worker::config::{
    branches_to_sync, space_config, BranchConfiguration, RemoteConfiguration, RepositoryConfiguration,
    UpstreamConfiguration,
};
use tonk_worker::named::NamedMap;

fn with_upstream() -> BranchConfiguration {
    BranchConfiguration {
        upstream: Some(UpstreamConfiguration { remote: "origin".to_string(), branch: "main".to_string() }),
        revision: None,
    }
}

fn without_upstream() -> BranchConfiguration {
    BranchConfiguration { upstream: None, revision: None }
}

#[test]
fn it_builds_a_local_only_config_for_an_empty_remote() {
    let config = space_config("").expect("an empty remote still builds a config");
    assert!(config.remote.is_empty(), "an empty remote must leave the space local-only");
    let main = config.branch.get("main").expect("main branch present");
    assert!(main.upstream.is_none(), "a local-only space's main branch must have no upstream");
}

#[test]
fn it_treats_a_whitespace_remote_as_local_only() {
    let config = space_config("   ").expect("a blank remote still builds a config");
    assert!(config.remote.is_empty());
    assert!(config.branch.get("main").expect("main").upstream.is_none());
}

#[test]
fn it_wires_origin_and_tracks_main_for_a_remote_url() {
    let config = space_config("https://example.test/ucan/").expect("config");
    let origin = config.remote.get("origin").expect("a remote URL must register the origin remote");
    assert_eq!(origin.address, "https://example.test/ucan/");
    let upstream = config
        .branch
        .get("main")
        .expect("main")
        .upstream
        .clone()
        .expect("main must track an upstream when a remote is given");
    assert_eq!(upstream.remote, "origin");
    assert_eq!(upstream.branch, "main");
}

#[test]
fn it_trims_the_remote_before_wiring_it() {
    let config = space_config("  https://example.test/ucan/ \n").expect("config");
    assert_eq!(config.remote.get("origin").expect("origin").address, "https://example.test/ucan/");
    assert_eq!(config.remote.len(), 1);
    assert_eq!(config.branch.len(), 1);
}

#[test]
fn it_selects_only_branches_with_an_upstream() {
    let mut branches = NamedMap::new();
    branches.insert("main".to_string(), with_upstream());
    branches.insert("scratch".to_string(), without_upstream());
    assert_eq!(branches_to_sync(&branches), vec!["main".to_string()]);
}

#[test]
fn it_returns_branches_sorted_for_a_stable_sweep_order() {
    let mut branches = NamedMap::new();
    branches.insert("zeta".to_string(), with_upstream());
    branches.insert("alpha".to_string(), with_upstream());
    assert_eq!(branches_to_sync(&branches), vec!["alpha".to_string(), "zeta".to_string()]);
}

#[test]
fn it_returns_empty_when_no_branch_has_an_upstream() {
    let mut branches = NamedMap::new();
    branches.insert("main".to_string(), without_upstream());
    assert!(branches_to_sync(&branches).is_empty());
}

#[test]
fn it_replaces_a_named_entry_in_place() {
    let mut branches = NamedMap::new();
    branches.insert("main".to_string(), without_upstream());
    branches.insert("main".to_string(), with_upstream());
    assert_eq!(branches.len(), 1);
    assert!(branches.get("main").expect("main").upstream.is_some());
    assert!(!branches.contains_key("scratch"));
}

#[test]
fn it_builds_remote_and_branch_configurations() {
    let remote = RemoteConfiguration::new("https://hub/ucan/".to_string())
        .subject("did:key:zOther".to_string())
        .revocation_url("https://hub/revoke".to_string());
    assert_eq!(remote.address, "https://hub/ucan/");
    assert_eq!(remote.subject.as_deref(), Some("did:key:zOther"));
    assert_eq!(remote.revocation_url.as_deref(), Some("https://hub/revoke"));
    let branch = BranchConfiguration::new().upstream("origin".to_string(), "main".to_string());
    let upstream = branch.upstream.expect("upstream");
    assert_eq!(upstream.remote, "origin");
    let config = RepositoryConfiguration::new()
        .remote("origin".to_string(), RemoteConfiguration::new("https://hub/ucan/".to_string()))
        .branch("main".to_string(), BranchConfiguration::default());
    assert_eq!(config.remote.len(), 1);
    assert_eq!(config.branch.len(), 1);
    assert!(RepositoryConfiguration::default().remote.is_empty());
    let u = UpstreamConfiguration::new("origin".to_string(), "dev".to_string());
    assert_eq!(u.branch, "dev");
}
