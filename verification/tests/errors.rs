use tonk_worker::errors::{
    command_error, reactor_to_error, rename_outcome, ReactorError, ReactorErrorKind, RenameOutcome, RepositoryError,
    TonkWorkerError,
};

#[test]
fn it_maps_a_failed_rename_to_failed_rather_than_success() {
    assert_eq!(
        rename_outcome(Err(RepositoryError::Internal("no such replica".to_string()))),
        RenameOutcome::Failed
    );
}

#[test]
fn it_maps_a_successful_rename_to_renamed() {
    assert_eq!(rename_outcome(Ok(())), RenameOutcome::Renamed);
}

#[test]
fn it_maps_missing_repositories_to_not_found() {
    let e = reactor_to_error(ReactorError { kind: ReactorErrorKind::BranchNotFound, message: "main".to_string() });
    assert!(matches!(e, TonkWorkerError::NotFound(ref m) if m == "main"));
    let e = reactor_to_error(ReactorError { kind: ReactorErrorKind::RepositoryNotFound, message: "r".to_string() });
    assert!(matches!(e, TonkWorkerError::NotFound(_)));
    let e = reactor_to_error(ReactorError { kind: ReactorErrorKind::Push, message: "boom".to_string() });
    assert!(matches!(e, TonkWorkerError::Internal(ref m) if m == "boom"));
    let e = command_error("command_unknown", "unknown command kind".to_string());
    assert!(matches!(e, TonkWorkerError::Command { ref code, ref message } if code == "command_unknown" && message == "unknown command kind"));
}
