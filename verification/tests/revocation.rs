use tonk_worker::errors::TonkWorkerError;
use tonk_worker::revocation::{check_receipt, leaf_of, restore_remote, restore_start, revoke_refusal, RestoreStart};

#[test]
fn it_revokes_the_leaf_of_a_proved_path() {
    assert_eq!(leaf_of(&vec!["cid:root".to_string(), "cid:leaf".to_string()]).unwrap(), "cid:leaf");
    assert!(matches!(leaf_of(&vec![]), Err(TonkWorkerError::Internal(ref m)) if m == "a proved path has no leaf"));
    assert!(check_receipt("cid:leaf", "cid:leaf").is_ok());
    assert!(matches!(
        check_receipt("cid:other", "cid:leaf"),
        Err(TonkWorkerError::Internal(ref m)) if m == "the access service acknowledged a different grant"
    ));
    assert!(matches!(
        revoke_refusal("notes", "no remote", "not-synced"),
        TonkWorkerError::Conflict(ref m) if m == "cannot revoke a grant on 'notes': no remote (not-synced)"
    ));
}

#[test]
fn it_restores_legacy_unnamed_and_isolates_ambiguous_and_bad_artifacts() {
    assert!(matches!(restore_start(true, Some("k".to_string()), false), Ok(RestoreStart::SkipAmbiguous)));
    assert!(matches!(
        restore_start(false, None, false),
        Err(TonkWorkerError::Internal(ref m)) if m == "account spot has no selected backup key"
    ));
    assert!(matches!(restore_start(false, Some("k".to_string()), true), Ok(RestoreStart::AlreadyPresent)));
    assert!(matches!(restore_start(false, Some("k".to_string()), false), Ok(RestoreStart::Fetch(ref k)) if k == "k"));
    assert!(matches!(
        restore_remote(false, Some("https://sync.example.test/ucan/".to_string())),
        Err(TonkWorkerError::Internal(ref m)) if m == "backup subject does not match its inventory row"
    ));
    assert!(matches!(restore_remote(true, None), Err(TonkWorkerError::Internal(ref m)) if m == "backup has no sync remote"));
    assert_eq!(restore_remote(true, Some("https://sync.example.test/ucan/".to_string())).unwrap(), "https://sync.example.test/ucan/");
}
