use tonk_worker::config::Revision;
use tonk_worker::errors::TonkWorkerError;
use tonk_worker::transact::{
    announces_commit, correlation_for, empty_transact_response, invocation_outcome, moved_tree, new_correlation,
    preflight, profile_write_allowed, validation_error, ClaimCheck, InvocationStatus, PreparedInvocation,
    ProfileTransactPath, TransactPath, ValidationFailure,
};

fn rev(tree: &str, version: &str) -> Revision {
    Revision { tree: tree.to_string(), version: version.to_string() }
}

fn command(error: &TonkWorkerError) -> Option<(String, String)> {
    match error {
        TonkWorkerError::Command { code, message } => Some((code.clone(), message.clone())),
        _ => None,
    }
}

fn invoke(known: bool, rules: usize, handlers: usize) -> ClaimCheck {
    ClaimCheck::Invoke { known, invalid: None, registered_rules: rules, registered_handlers: handlers }
}

#[test]
fn it_rejects_profile_writes_from_sealed_guest_clients() {
    match profile_write_allowed(true) {
        Err(TonkWorkerError::Forbidden(m)) => assert_eq!(m, "sealed guests may not write the profile branch"),
        other => panic!("sealed-guest clients must not write profile/meta, got: {:?}", other),
    }
    assert!(profile_write_allowed(false).is_ok());
}

#[test]
fn it_marks_dirty_only_when_the_tree_moved() {
    assert!(!moved_tree(&Some(rev("t", "v1")), &Some(rev("t", "v2"))), "a moment tick alone pushes nothing");
    assert!(moved_tree(&Some(rev("t", "v1")), &Some(rev("u", "v2"))));
    assert!(moved_tree(&None, &Some(rev("t", "v1"))));
    assert!(!moved_tree(&None, &None));
}

#[test]
fn it_announces_a_commit_that_produced_a_new_revision() {
    assert!(announces_commit(&Some(rev("t", "v1")), &Some(rev("t", "v2"))));
    assert!(!announces_commit(&Some(rev("t", "v1")), &Some(rev("t", "v1"))));
    assert!(announces_commit(&None, &Some(rev("t", "v1"))));
    assert!(!announces_commit(&Some(rev("t", "v1")), &None));
}

#[test]
fn it_reports_validation_failures_with_stable_codes() {
    let e = validation_error(ValidationFailure::UnknownArgument { field: "title".to_string() });
    assert_eq!(command(&e), Some(("command_argument_unknown".to_string(), "command argument \"title\" is not declared".to_string())));
    let e = validation_error(ValidationFailure::MissingRequiredArgument { field: "to".to_string() });
    assert_eq!(command(&e), Some(("command_argument_missing".to_string(), "required command argument \"to\" is missing".to_string())));
    let e = validation_error(ValidationFailure::ReservedArgument { field: "this".to_string() });
    assert_eq!(command(&e), Some(("command_argument_reserved".to_string(), "command argument \"this\" is reserved".to_string())));
    let e = validation_error(ValidationFailure::TypeMismatch {
        field: "n".to_string(),
        expected: "integer".to_string(),
        found: "text".to_string(),
    });
    assert_eq!(command(&e), Some(("command_argument_type".to_string(), "command argument \"n\" expects integer but received text".to_string())));
    let e = validation_error(ValidationFailure::UnknownArgument { field: "a\"b".to_string() });
    assert_eq!(command(&e).unwrap().1, "command argument \"a\\\"b\" is not declared");
}

#[test]
fn it_prepares_every_invocation_in_claim_order() {
    let checks = vec![
        ClaimCheck::Data { error: None },
        invoke(true, 1, 0),
        ClaimCheck::Data { error: None },
        invoke(true, 0, 2),
    ];
    let prepared = preflight(&checks).expect("everything passes");
    assert_eq!(prepared.len(), 2);
    assert_eq!((prepared[0].claim, prepared[0].registered_rules, prepared[0].registered_handlers), (1, 1, 0));
    assert_eq!((prepared[1].claim, prepared[1].registered_rules, prepared[1].registered_handlers), (3, 0, 2));
    assert!(preflight(&vec![]).expect("empty").is_empty());
}

#[test]
fn it_refuses_the_first_bad_claim() {
    let e = preflight(&vec![invoke(true, 1, 1), invoke(false, 1, 1), invoke(true, 0, 0)]).unwrap_err();
    assert_eq!(command(&e), Some(("command_unknown".to_string(), "unknown command kind".to_string())));
    let e = preflight(&vec![invoke(true, 0, 0), invoke(false, 1, 1)]).unwrap_err();
    assert_eq!(
        command(&e),
        Some(("command_unhandled".to_string(), "command has no registered rule or native handler".to_string()))
    );
    let invalid = ClaimCheck::Invoke {
        known: true,
        invalid: Some(ValidationFailure::ReservedArgument { field: "this".to_string() }),
        registered_rules: 1,
        registered_handlers: 1,
    };
    let e = preflight(&vec![invalid]).unwrap_err();
    assert_eq!(command(&e).unwrap().0, "command_argument_reserved");
    let e = preflight(&vec![ClaimCheck::Data { error: Some("bad value".to_string()) }]).unwrap_err();
    assert!(matches!(e, TonkWorkerError::Router(ref m) if m == "invalid claim: bad value"));
}

#[test]
fn it_mints_correlations_from_sixteen_bytes() {
    let bytes = [0u8, 1, 2, 15, 16, 171, 255, 9, 10, 11, 12, 13, 14, 15, 16, 17];
    assert_eq!(correlation_for(&bytes), "invoke:0001020f10abff090a0b0c0d0e0f1011");
    let fresh = new_correlation();
    assert!(fresh.starts_with("invoke:"));
    assert_eq!(fresh.len(), 7 + 32);
    assert!(fresh[7..].chars().all(|c| c.is_ascii_hexdigit() && !c.is_ascii_uppercase()));
}

#[test]
fn it_reports_an_invocation_outcome() {
    let prepared = PreparedInvocation { claim: 2, registered_rules: 3, registered_handlers: 1 };
    let o = invocation_outcome(&prepared, "cmd:kind".to_string(), "invoke:ab".to_string(), 2, 1);
    assert_eq!(o.claim, 2);
    assert_eq!(o.status, InvocationStatus::Handled);
    assert_eq!((o.registered_rules, o.fired_rules, o.registered_handlers, o.scheduled_handlers), (3, 2, 1, 1));
    assert_eq!(o.command, "cmd:kind");
    assert_eq!(o.correlation, "invoke:ab");
}

#[test]
fn it_answers_an_empty_batch_without_moving_the_branch() {
    let r = empty_transact_response(Some(rev("t", "v")));
    assert_eq!(r.revision_before, Some(rev("t", "v")));
    assert_eq!(r.revision_after, Some(rev("t", "v")));
    assert_eq!(r.commits.claims, 0);
    assert_eq!(r.commits.entities, 0);
    assert!(r.invocations.is_empty());
    let path = TransactPath { repo: "r".to_string(), branch: "main".to_string() };
    let profile = ProfileTransactPath { branch: "main".to_string() };
    assert_eq!(path.branch, profile.branch);
}

use tonk_worker::transact::{committed_transact_response, CommitSummary};

#[test]
fn it_reports_the_claims_of_a_committed_batch() {
    let before = Revision { tree: "t0".to_string(), version: "v0".to_string() };
    let after = Revision { tree: "t1".to_string(), version: "v1".to_string() };
    let r = committed_transact_response(Some(before.clone()), after.clone(), 3, vec![]);
    assert_eq!(r.revision_before, Some(before));
    assert_eq!(r.revision_after, Some(after));
    assert_eq!(r.commits, CommitSummary { claims: 3, entities: 0 });
    assert!(r.invocations.is_empty());
}
