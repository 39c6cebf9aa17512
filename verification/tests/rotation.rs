use tonk_worker::errors::TonkWorkerError;
use tonk_worker::rotation::{founder_candidates, membership_migration, retires_onboarding, rotation_recipient, RosterStamps};

fn stamps(roles: &[&str], names: &[&str], invitations: &[&str]) -> RosterStamps {
    RosterStamps {
        roles: roles.iter().map(|s| s.to_string()).collect(),
        names: names.iter().map(|s| s.to_string()).collect(),
        invitations: invitations.iter().map(|s| s.to_string()).collect(),
    }
}

#[test]
fn it_replaces_the_onboarding_membership_with_the_account() {
    let previous = stamps(&["member"], &["jack"], &["inv:1"]);
    let replacement = stamps(&[], &[], &[]);
    let plan = membership_migration("did:key:zSpace", 1, 0, &previous, &replacement).expect("plan").expect("a move");
    assert_eq!(plan.retracted_memberships, 1);
    assert_eq!(plan.copied.roles, vec!["member".to_string()]);
    assert_eq!(plan.copied.names, vec!["jack".to_string()]);
    assert_eq!(plan.copied.invitations, vec!["inv:1".to_string()]);
    assert_eq!(plan.retracted.roles, vec!["member".to_string()], "the retired membership leaves no role stamp");
    assert_eq!(plan.retracted.names, vec!["jack".to_string()], "the retired membership leaves no name stamp");
    assert_eq!(plan.retracted.invitations, vec!["inv:1".to_string()], "the retired membership leaves no provenance stamp");
}

#[test]
fn it_lets_account_side_stamps_win() {
    let previous = stamps(&["member"], &["old"], &["inv:1"]);
    let replacement = stamps(&["founder"], &[], &["inv:2"]);
    let plan = membership_migration("did:key:zSpace", 2, 1, &previous, &replacement).unwrap().unwrap();
    assert!(plan.copied.roles.is_empty());
    assert_eq!(plan.copied.names, vec!["old".to_string()]);
    assert!(plan.copied.invitations.is_empty());
    assert_eq!(plan.retracted_memberships, 2);
}

#[test]
fn it_treats_a_repeated_migration_as_done() {
    let none = stamps(&[], &[], &[]);
    assert!(membership_migration("did:key:zSpace", 0, 1, &none, &none).unwrap().is_none());
    match membership_migration("did:key:zSpace", 0, 0, &none, &none) {
        Err(TonkWorkerError::NotFound(m)) => assert_eq!(m, "did:key:zSpace: no onboarding membership to accredit"),
        other => panic!("expected not found, got {other:?}"),
    }
}

#[test]
fn it_picks_the_rotation_recipient() {
    assert_eq!(rotation_recipient(Ok(Some("pub".to_string())), Some("root".to_string())).as_deref(), Some("pub"));
    assert_eq!(rotation_recipient(Ok(None), Some("root".to_string())).as_deref(), Some("root"));
    assert!(rotation_recipient(Ok(None), None).is_none());
    assert!(rotation_recipient(Err("offline".to_string()), Some("root".to_string())).is_none());
    assert!(retires_onboarding(0));
    assert!(!retires_onboarding(1));
}

#[test]
fn it_finds_founders_left_on_an_older_member() {
    let memberships = vec![
        ("m:old".to_string(), "did:key:zOld".to_string()),
        ("m:root".to_string(), "did:key:zRoot".to_string()),
        ("m:guest".to_string(), "did:key:zGuest".to_string()),
    ];
    let roles = vec![
        ("m:old".to_string(), "founder".to_string()),
        ("m:root".to_string(), "founder".to_string()),
        ("m:guest".to_string(), "member".to_string()),
    ];
    let found = founder_candidates(&memberships, &roles, "founder", "did:key:zRoot");
    assert_eq!(found, vec![("m:old".to_string(), "did:key:zOld".to_string())]);
}

use tonk_worker::rotation::{find_membership_chain, rerooted_hops, retracts_previous_leaf, PrefixSummary};

fn prefix(space: &str, audience: &str, last: Option<&str>) -> PrefixSummary {
    PrefixSummary { space: space.to_string(), audience: audience.to_string(), last_issuer: last.map(|s| s.to_string()) }
}

#[test]
fn it_finds_and_reroots_the_membership_chain() {
    let prefixes = vec![
        prefix("s1", "did:key:zOnboard", Some("did:key:zOther")),
        prefix("s2", "did:key:zElse", Some("did:key:zPrincipal")),
        prefix("s3", "did:key:zOnboard", Some("did:key:zPrincipal")),
    ];
    assert_eq!(find_membership_chain(&prefixes, "did:key:zOnboard", "did:key:zRoot", "did:key:zPrincipal"), Some(2));
    assert_eq!(find_membership_chain(&prefixes, "did:key:zOnboard", "did:key:zRoot", "did:key:zNobody"), None);
    let hops = vec!["space->account".to_string(), "principal->onboarding".to_string()];
    assert_eq!(
        rerooted_hops("s3", &hops, "principal->root".to_string()).unwrap(),
        vec!["space->account".to_string(), "principal->root".to_string()]
    );
    assert!(rerooted_hops("s3", &vec!["only".to_string()], "x".to_string()).is_err());
    assert!(retracts_previous_leaf("did:key:zOnboard", "did:key:zRoot"));
    assert!(!retracts_previous_leaf("did:key:zRoot", "did:key:zRoot"));
}
