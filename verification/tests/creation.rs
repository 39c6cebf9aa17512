use tonk_worker::config::{space_config, BranchConfiguration, RepositoryConfiguration};
use tonk_worker::creation::{create_space_name, creation_remote, home_address, repository_name_body, space_href, wants_untitled};

#[test]
fn it_names_untitled_spaces_from_the_sequence() {
    assert!(wants_untitled(""));
    assert!(wants_untitled("  Untitled "));
    assert!(!wants_untitled("Garden"));
    assert_eq!(create_space_name("Garden".to_string(), vec!["Untitled".to_string()]), "Garden");
    assert_eq!(create_space_name("Untitled".to_string(), vec!["Untitled".to_string()]), "Untitled 2");
    assert_eq!(create_space_name("   ".to_string(), vec![]), "Untitled");
}

#[test]
fn it_navigates_to_the_new_space_and_picks_its_remote() {
    assert_eq!(space_href("abc"), "/space/abc");
    assert_eq!(creation_remote(Some("https://a/".to_string()), false, None).as_deref(), Some("https://a/"));
    assert_eq!(creation_remote(None, true, Some("https://acct/".to_string())).as_deref(), Some("https://acct/"));
    assert!(creation_remote(None, false, Some("https://acct/".to_string())).is_none());
}

#[test]
fn it_records_the_name_as_a_json_string() {
    assert_eq!(
        repository_name_body("did:key:zS", "Garden").unwrap(),
        "tonk/repository!:\n  this: did:key:zS\n  name: \"Garden\"\n"
    );
    assert_eq!(
        repository_name_body("did:key:zS", "Groceries: a \"list\"").unwrap(),
        "tonk/repository!:\n  this: did:key:zS\n  name: \"Groceries: a \\\"list\\\"\"\n"
    );
}

#[test]
fn it_advertises_the_address_main_syncs_through() {
    let config = space_config("https://hub/ucan/").unwrap();
    assert_eq!(home_address(&config).as_deref(), Some("https://hub/ucan/"));
    assert!(home_address(&space_config("").unwrap()).is_none());
    let dangling = RepositoryConfiguration::new()
        .branch("main".to_string(), BranchConfiguration::new().upstream("gone".to_string(), "main".to_string()));
    assert!(home_address(&dangling).is_none());
}

use tonk_worker::creation::{seed_body, PROFILE_LIBRARY_URL, STANDARD_LIBRARY_URL};

#[test]
fn it_seeds_the_scaffold_and_the_name_in_one_body() {
    assert_eq!(
        seed_body("lib: x", "did:key:zS", "Garden").unwrap(),
        "lib: x\ntonk/repository!:\n  this: did:key:zS\n  name: \"Garden\"\n"
    );
    assert_eq!(STANDARD_LIBRARY_URL, "/library/core.yaml");
    assert_eq!(PROFILE_LIBRARY_URL, "/library/profile.yaml");
}

use tonk_worker::creation::{custody_required, onboarding_owner, space_owner, OwnerStep, RootLookup};
use tonk_worker::errors::RepositoryError;

#[test]
fn it_delegates_a_space_to_an_account() {
    assert!(matches!(space_owner(Ok("did:key:zRoot".to_string())), Ok(OwnerStep::Root(ref d)) if d == "did:key:zRoot"));
    assert!(matches!(space_owner(Err(RootLookup::RootRequired)), Ok(OwnerStep::UseOnboarding)));
    assert!(matches!(
        space_owner(Err(RootLookup::Failed("disk".to_string()))),
        Err(RepositoryError::Internal(ref m)) if m == "failed to load local root: disk"
    ));
    assert_eq!(onboarding_owner(Ok(()), Ok(Some("did:key:zOnboard".to_string()))).unwrap(), "did:key:zOnboard");
    assert!(matches!(
        onboarding_owner(Err("no key".to_string()), Ok(None)),
        Err(RepositoryError::Internal(ref m)) if m == "failed to grant the device: no key"
    ));
    assert!(matches!(
        onboarding_owner(Ok(()), Ok(None)),
        Err(RepositoryError::Internal(ref m)) if m == "the onboarding account did not materialise"
    ));
    assert!(matches!(
        onboarding_owner(Ok(()), Err("locked".to_string())),
        Err(RepositoryError::Internal(ref m)) if m == "failed to open the onboarding account: locked"
    ));
    assert!(custody_required(true).is_ok());
    assert!(custody_required(false).is_err());
}

#[test]
fn it_escapes_control_characters_in_the_name() {
    assert_eq!(
        repository_name_body("did:key:zS", "a\tb\nc\u{1}d\\e").unwrap(),
        "tonk/repository!:\n  this: did:key:zS\n  name: \"a\\tb\\nc\\u0001d\\\\e\"\n"
    );
    assert_eq!(
        repository_name_body("did:key:zS", "caf\u{e9} \u{7f}").unwrap(),
        "tonk/repository!:\n  this: did:key:zS\n  name: \"caf\u{e9} \u{7f}\"\n"
    );
}
