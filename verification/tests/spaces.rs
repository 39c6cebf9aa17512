use tonk_worker::spaces::{
    create_space_response, list_spaces_response, status_response, updated_metadata, CreateSpaceRequest,
    SpaceMetadataResponse, UpdateMetadataRequest,
};

#[test]
fn it_lists_known_spaces_sorted_by_did() {
    let r = list_spaces_response(vec![
        "did:key:z6MkC".to_string(),
        "did:key:z6MkA".to_string(),
        "did:key:z6MkB".to_string(),
    ]);
    let dids: Vec<&str> = r.spaces.iter().map(|s| s.did.as_str()).collect();
    assert_eq!(dids, vec!["did:key:z6MkA", "did:key:z6MkB", "did:key:z6MkC"]);
    assert!(r.spaces.iter().all(|s| s.name.is_none() && s.description.is_none()));
    assert!(list_spaces_response(vec![]).spaces.is_empty());
}

#[test]
fn it_echoes_the_requested_metadata_on_creation() {
    let r = create_space_response(
        "did:key:z6Mk".to_string(),
        CreateSpaceRequest { name: Some("Test Space".to_string()), description: Some("A test space".to_string()) },
    );
    assert_eq!(r.did, "did:key:z6Mk");
    assert_eq!(r.name.as_deref(), Some("Test Space"));
    assert_eq!(r.description.as_deref(), Some("A test space"));
    let bare = create_space_response("did:key:z6Mk".to_string(), CreateSpaceRequest::default());
    assert!(bare.name.is_none() && bare.description.is_none());
}

#[test]
fn it_updates_only_the_given_metadata_fields() {
    let current = SpaceMetadataResponse {
        did: "did:key:z6Mk".to_string(),
        name: Some("Old".to_string()),
        description: Some("Old description".to_string()),
    };
    let r = updated_metadata(
        "did:key:z6Mk".to_string(),
        current.clone(),
        UpdateMetadataRequest { name: Some("Updated Name".to_string()), description: None },
    );
    assert_eq!(r.name.as_deref(), Some("Updated Name"));
    assert_eq!(r.description.as_deref(), Some("Old description"));
    let r = updated_metadata("did:key:z6Mk".to_string(), current, UpdateMetadataRequest::default());
    assert_eq!(r.name.as_deref(), Some("Old"));
}

#[test]
fn it_reports_upstream_only_for_a_loaded_tracking_main() {
    let s = status_response("notes".to_string(), "did:key:zS".to_string(), "did:key:zO".to_string(), Some(true));
    assert!(s.has_upstream);
    assert_eq!(s.repo_name, "notes");
    assert!(!status_response("n".to_string(), "s".to_string(), "o".to_string(), Some(false)).has_upstream);
    assert!(!status_response("n".to_string(), "s".to_string(), "o".to_string(), None).has_upstream);
}
