use tonk_worker::errors::TonkWorkerError;
use tonk_worker::sync_queue::SyncQueue;
use tonk_worker::sync_rules::{
    classified_service_failure, drain_order, failure_status, pause_toggle, pull_moved_head, pull_step, refresh_failed_error,
    retry_raced_pull, status_fetch_failure, sweep_failed_message, sync_enabled, sync_failure, sync_gate,
    AuthorizationReason, FailureStatus, PullOutcome, PullStep, ServiceFailure, SyncDisposition, SyncFailure, SyncGate,
    SyncPath, ToggleStatus, SYNC_RETRY_LIMIT,
};
use tonk_worker::config::Revision;

fn authorization_failure(reason: AuthorizationReason) -> SyncFailure {
    SyncFailure::Service(ServiceFailure { authorization: Some(reason), rejection_transient: None })
}

fn upstream_code(error: &TonkWorkerError) -> Option<(u16, String)> {
    match error {
        TonkWorkerError::Upstream { status, code: Some(code), .. } => Some((*status, code.clone())),
        _ => None,
    }
}

#[test]
fn it_classifies_revocation_from_the_typed_reason() {
    let error = sync_failure(authorization_failure(AuthorizationReason::Revoked));
    assert!(matches!(
        error,
        TonkWorkerError::Upstream { status: 403, code: Some(ref code), .. } if code == "CREDENTIAL_REVOKED"
    ));
}

#[test]
fn it_maps_revocation_registry_outages_to_sync_unavailable() {
    let error = sync_failure(authorization_failure(AuthorizationReason::Unavailable));
    assert!(matches!(
        error,
        TonkWorkerError::Upstream { status: 503, code: Some(ref code), .. } if code == "SYNC_UNAVAILABLE"
    ));
}

#[test]
fn it_classifies_every_failure_shape() {
    assert_eq!(upstream_code(&sync_failure(SyncFailure::HeadMoved)), Some((409, "SYNC_CONFLICT".to_string())));
    assert_eq!(upstream_code(&sync_failure(SyncFailure::NonFastForward)), Some((409, "SYNC_CONFLICT".to_string())));
    assert_eq!(
        upstream_code(&sync_failure(authorization_failure(AuthorizationReason::UnavailableProof))),
        Some((503, "SYNC_UNAVAILABLE".to_string()))
    );
    assert_eq!(
        upstream_code(&sync_failure(authorization_failure(AuthorizationReason::Other))),
        Some((502, "UPSTREAM_ERROR".to_string()))
    );
    let permanent = ServiceFailure { authorization: None, rejection_transient: Some(false) };
    let transient = ServiceFailure { authorization: None, rejection_transient: Some(true) };
    let bare = ServiceFailure { authorization: None, rejection_transient: None };
    assert_eq!(upstream_code(&sync_failure(SyncFailure::Service(permanent))), Some((502, "UPSTREAM_ERROR".to_string())));
    assert_eq!(upstream_code(&sync_failure(SyncFailure::Service(transient))), Some((503, "SYNC_UNAVAILABLE".to_string())));
    assert_eq!(upstream_code(&sync_failure(SyncFailure::Service(bare))), Some((503, "SYNC_UNAVAILABLE".to_string())));
    assert!(classified_service_failure(bare).is_none());
    assert_eq!(upstream_code(&status_fetch_failure(bare)), Some((503, "SYNC_UNAVAILABLE".to_string())));
    assert_eq!(upstream_code(&status_fetch_failure(permanent)), Some((502, "UPSTREAM_ERROR".to_string())));
}

#[test]
fn it_stamps_the_chip_from_the_error_code() {
    assert_eq!(failure_status(&sync_failure(authorization_failure(AuthorizationReason::Revoked))), FailureStatus::Revoked);
    assert_eq!(failure_status(&sync_failure(SyncFailure::HeadMoved)), FailureStatus::Conflict);
    assert_eq!(failure_status(&TonkWorkerError::Internal("x".to_string())), FailureStatus::Unavailable);
}

#[test]
fn it_retries_a_raced_pull_until_the_last_attempt() {
    assert_eq!(SYNC_RETRY_LIMIT, 4);
    assert!(retry_raced_pull(SyncFailure::HeadMoved, 0));
    assert!(retry_raced_pull(SyncFailure::HeadMoved, 2));
    assert!(!retry_raced_pull(SyncFailure::HeadMoved, 3));
    assert!(!retry_raced_pull(SyncFailure::NonFastForward, 0));
    assert!(matches!(pull_step(0, PullOutcome::Pulled), PullStep::Done));
    assert!(matches!(pull_step(1, PullOutcome::Failed(SyncFailure::HeadMoved)), PullStep::Refresh));
    match pull_step(3, PullOutcome::Failed(SyncFailure::HeadMoved)) {
        PullStep::Fail(e) => assert_eq!(upstream_code(&e), Some((409, "SYNC_CONFLICT".to_string()))),
        _ => panic!("the last raced attempt is reported"),
    }
    assert!(matches!(refresh_failed_error(), TonkWorkerError::Internal(ref m) if m == "failed to refresh local branch after a concurrent update"));
}

#[test]
fn it_gates_a_sync_on_connectivity_and_the_pause_preference() {
    assert_eq!(sync_gate(true, false, true), SyncGate::Skip(SyncDisposition::Offline));
    assert_eq!(sync_gate(false, false, false), SyncGate::Skip(SyncDisposition::Paused));
    assert_eq!(sync_gate(false, true, false), SyncGate::Proceed);
    assert_eq!(sync_gate(false, false, true), SyncGate::Proceed);
    let path = SyncPath { repo: "notes".to_string(), branch: "main".to_string() };
    assert_eq!(path.repo, "notes");
}

#[test]
fn it_repolls_only_when_a_pull_moved_the_head() {
    let a = Revision { tree: "t1".to_string(), version: "v1".to_string() };
    let b = Revision { tree: "t2".to_string(), version: "v2".to_string() };
    assert!(!pull_moved_head(&Some(a.clone()), &None));
    assert!(!pull_moved_head(&Some(a.clone()), &Some(a.clone())));
    assert!(pull_moved_head(&Some(a.clone()), &Some(b.clone())));
    assert!(pull_moved_head(&None, &Some(b)));
}

#[test]
fn it_reads_the_pause_preference() {
    assert!(sync_enabled(&vec![]));
    assert!(sync_enabled(&vec![true, true]));
    assert!(!sync_enabled(&vec![true, false]));
    let pause = pause_toggle(true);
    assert!(!pause.now_enabled);
    assert_eq!(pause.status, ToggleStatus::Paused);
    let resume = pause_toggle(false);
    assert!(resume.now_enabled);
    assert_eq!(resume.status, ToggleStatus::Pending);
}

#[test]
fn it_orders_a_drain_pending_first_without_repeats() {
    let order = drain_order(
        vec!["b".to_string(), "a".to_string()],
        vec!["a".to_string(), "c".to_string(), "b".to_string()],
    );
    assert_eq!(order, vec!["b".to_string(), "a".to_string(), "c".to_string()]);
    assert_eq!(sweep_failed_message("notes"), "background sync of 'notes' did not fully reconcile");
}

#[test]
fn it_counts_a_repo_as_dirty_until_the_drain_takes_it() {
    let mut queue = SyncQueue::default();
    assert_eq!(queue.dirty_count(), 0, "a fresh queue holds nothing");
    queue.mark_dirty("notes", 1_000);
    assert_eq!(queue.dirty_count(), 1, "a commit marks its repo dirty");
    assert_eq!(queue.drain_pending(), vec!["notes".to_string()]);
    assert_eq!(queue.dirty_count(), 0, "the drain takes the repo, so nothing is pending after it");
}

#[test]
fn it_orders_dirty_repos_by_most_recent_commit() {
    let mut queue = SyncQueue::default();
    queue.mark_dirty("stale", 1_000);
    queue.mark_dirty("active", 9_000);
    assert_eq!(
        queue.drain_pending(),
        vec!["active".to_string(), "stale".to_string()],
        "the repo the user is editing syncs first",
    );
}

#[test]
fn it_stops_counting_a_repo_that_only_ever_fails() {
    let mut queue = SyncQueue::default();
    queue.mark_dirty("notes", 1_000);
    for pass in 0..10u64 {
        let now = 2_000 + pass * 2_000;
        assert_eq!(queue.drain_pending(), vec!["notes".to_string()], "a failing repo must keep being retried");
        queue.requeue("notes", now);
        assert_eq!(queue.dirty_count(), 0, "a repo awaiting retry is not pending local work");
    }
}

#[test]
fn it_lets_a_new_commit_re_earn_the_bypass_after_a_failure() {
    let mut queue = SyncQueue::default();
    queue.mark_dirty("notes", 1_000);
    queue.drain_pending();
    queue.requeue("notes", 2_000);
    assert_eq!(queue.dirty_count(), 0);
    queue.mark_dirty("notes", 3_000);
    assert_eq!(queue.dirty_count(), 1, "a new local commit still bypasses the quiet interval");
}

#[test]
fn it_sweeps_dirty_repos_before_retries() {
    let mut queue = SyncQueue::default();
    queue.requeue("failing", 9_000);
    queue.mark_dirty("edited", 1_000);
    assert_eq!(
        queue.drain_pending(),
        vec!["edited".to_string(), "failing".to_string()],
        "un-pushed local work has push priority over a retry",
    );
}

#[test]
fn it_forgets_a_removed_repo_from_both_sets() {
    let mut queue = SyncQueue::default();
    queue.mark_dirty("gone", 1_000);
    queue.requeue("gone", 1_000);
    queue.forget("gone");
    assert_eq!(queue.dirty_count(), 0);
    assert!(queue.drain_pending().is_empty(), "a removed space must not be resurrected by a leftover stamp");
}

#[test]
fn it_restamps_a_repo_in_place() {
    let mut queue = SyncQueue::new();
    queue.mark_dirty("a", 5);
    queue.mark_dirty("b", 7);
    queue.mark_dirty("a", 9);
    assert_eq!(queue.dirty_count(), 2);
    queue.requeue("c", 100);
    assert_eq!(queue.drain_pending(), vec!["a".to_string(), "b".to_string(), "c".to_string()]);
}

use tonk_worker::sync_rules::{account_sweep_needed, status_gate, sweep_result, StatusGate};

#[test]
fn it_requeues_only_the_repos_whose_sweep_failed() {
    let mut queue = SyncQueue::new();
    queue.mark_dirty("edited", 5);
    let order = vec!["a".to_string(), "b".to_string(), "c".to_string()];
    queue.requeue_failed(&order, &vec![false, true, true], 100);
    assert_eq!(queue.dirty_count(), 1);
    assert_eq!(queue.drain_pending(), vec!["edited".to_string(), "b".to_string(), "c".to_string()]);
}

#[test]
fn it_reports_a_sweep_and_its_account_and_status_gates() {
    assert!(sweep_result("notes", false).is_ok());
    assert_eq!(sweep_result("notes", true).unwrap_err(), "background sync of 'notes' did not fully reconcile");
    assert!(account_sweep_needed(&vec![false, false]));
    assert!(!account_sweep_needed(&vec![false, true]));
    assert_eq!(status_gate(false, true), StatusGate::Paused);
    assert_eq!(status_gate(true, false), StatusGate::NoUpstream);
    assert_eq!(status_gate(true, true), StatusGate::Fetch);
}

use tonk_worker::sync_rules::{sync_step, SyncAction, SyncEnd, SyncEvent, SyncRun};

#[test]
fn it_runs_a_sync_that_retries_a_raced_pull() {
    let (s, a) = sync_step(SyncRun::Gate, SyncEvent::Gated { offline: false, account_key: false, enabled: true });
    assert_eq!(s, SyncRun::Pull { attempt: 0 });
    assert_eq!(a, vec![SyncAction::StampPending, SyncAction::Pull { attempt: 0 }]);
    let (s, a) = sync_step(s, SyncEvent::Pulled { outcome: PullOutcome::Failed(SyncFailure::HeadMoved), moved_head: false });
    assert_eq!(s, SyncRun::Refresh { attempt: 0 });
    assert_eq!(a, vec![SyncAction::Refresh]);
    let (s, a) = sync_step(s, SyncEvent::Refreshed { ok: true });
    assert_eq!(s, SyncRun::Pull { attempt: 1 });
    assert_eq!(a, vec![SyncAction::Pull { attempt: 1 }]);
    let (s, a) = sync_step(s, SyncEvent::Pulled { outcome: PullOutcome::Pulled, moved_head: true });
    assert_eq!(s, SyncRun::Push);
    assert_eq!(a, vec![SyncAction::Repoll, SyncAction::Push]);
    let (s, a) = sync_step(s, SyncEvent::Pushed { failure: None });
    assert_eq!(s, SyncRun::Done(SyncEnd::Completed));
    assert_eq!(a, vec![SyncAction::Settle]);
}

#[test]
fn it_gives_up_on_the_last_raced_attempt() {
    let (s, a) = sync_step(
        SyncRun::Pull { attempt: 3 },
        SyncEvent::Pulled { outcome: PullOutcome::Failed(SyncFailure::HeadMoved), moved_head: false },
    );
    assert_eq!(s, SyncRun::Done(SyncEnd::PullFailed(SyncFailure::HeadMoved)));
    assert_eq!(a, vec![SyncAction::ReportFailure]);
    let (s, _) = sync_step(SyncRun::Refresh { attempt: 1 }, SyncEvent::Refreshed { ok: false });
    assert_eq!(s, SyncRun::Done(SyncEnd::RefreshFailed));
}

#[test]
fn it_skips_offline_and_paused_syncs_without_network() {
    let (s, a) = sync_step(SyncRun::Gate, SyncEvent::Gated { offline: true, account_key: true, enabled: true });
    assert_eq!(s, SyncRun::Done(SyncEnd::Skipped(SyncDisposition::Offline)));
    assert_eq!(a, vec![SyncAction::StampOffline]);
    let (s, a) = sync_step(SyncRun::Gate, SyncEvent::Gated { offline: false, account_key: false, enabled: false });
    assert_eq!(s, SyncRun::Done(SyncEnd::Skipped(SyncDisposition::Paused)));
    assert_eq!(a, vec![SyncAction::StampPaused]);
    let (s, a) = sync_step(SyncRun::Push, SyncEvent::Pushed { failure: Some(SyncFailure::NonFastForward) });
    assert_eq!(s, SyncRun::Done(SyncEnd::PushFailed(SyncFailure::NonFastForward)));
    assert_eq!(a, vec![SyncAction::Settle, SyncAction::ReportFailure]);
}

use tonk_worker::sync_rules::{pull_start, PullStart};

#[test]
fn it_completes_a_pull_without_upstream_without_moving() {
    let head = Revision { tree: "t1".to_string(), version: "v1".to_string() };
    match pull_start(false, Some(head.clone())) {
        PullStart::NoUpstream { before, after, disposition } => {
            assert_eq!(before, Some(head.clone()));
            assert_eq!(after, Some(head.clone()));
            assert_eq!(disposition, SyncDisposition::Completed);
        },
        other => panic!("expected the no-upstream answer, got {other:?}"),
    }
    match pull_start(false, None) {
        PullStart::NoUpstream { before, after, .. } => {
            assert!(before.is_none());
            assert!(after.is_none());
        },
        other => panic!("expected the no-upstream answer, got {other:?}"),
    }
    assert!(matches!(pull_start(true, Some(head)), PullStart::Pull));
}
