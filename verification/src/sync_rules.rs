//! The decisions a sync run makes around its pulls and pushes: how a
//! failure is classified for the caller and the status chip, when a raced
//! pull is retried, whether a replica is paused, and the order a drain
//! sweeps repositories in.

use vstd::prelude::*;
use crate::errors::TonkWorkerError;
use crate::labels::views;
use crate::text::str_eq;

verus! {

/// How many times a sync pull refreshes and retries when a concurrent
/// commit moves the branch head mid-merge.
pub const SYNC_RETRY_LIMIT: usize = 4;

/// The typed authorization reason a failure carries.
#[derive(Clone, Copy, Debug, PartialEq, Eq, Structural)]
pub enum AuthorizationReason {
    /// The credential was revoked.
    Revoked,
    /// The revocation registry could not be reached.
    Unavailable,
    /// A proof could not be fetched.
    UnavailableProof,
    /// Any other authorization failure.
    Other,
}

/// The typed reasons found on a failure's source chain.
#[derive(Clone, Copy, Debug, PartialEq, Eq, Structural)]
pub struct ServiceFailure {
    /// The authorization reason, if the chain carries one.
    pub authorization: Option<AuthorizationReason>,
    /// Whether the service's rejection was transient, if the chain carries
    /// a rejection.
    pub rejection_transient: Option<bool>,
}

/// What a failed pull or push ran into.
#[derive(Clone, Copy, Debug, PartialEq, Eq, Structural)]
pub enum SyncFailure {
    /// A concurrent commit moved the head during the pull's merge.
    HeadMoved,
    /// The push was not a fast-forward of the remote.
    NonFastForward,
    /// Any other failure, with the typed reasons on its chain.
    Service(ServiceFailure),
}

/// An upstream failure with the given status, code and message.
pub open spec fn upstream(status: u16, code: Seq<char>, message: Seq<char>) -> spec_fn(TonkWorkerError) -> bool {
    |e: TonkWorkerError|
        e matches TonkWorkerError::Upstream { status: s, code: Some(c), message: m } && s == status
            && c@ == code && m@ == message
}

pub open spec fn is_revoked_error(e: TonkWorkerError) -> bool {
    upstream(403, "CREDENTIAL_REVOKED"@, "remote access has been revoked"@)(e)
}

pub open spec fn is_unavailable_error(e: TonkWorkerError) -> bool {
    upstream(503, "SYNC_UNAVAILABLE"@, "synchronization is temporarily unavailable"@)(e)
}

pub open spec fn is_upstream_error(e: TonkWorkerError) -> bool {
    upstream(502, "UPSTREAM_ERROR"@, "the upstream service could not complete synchronization"@)(e)
}

pub open spec fn is_conflict_error(e: TonkWorkerError) -> bool {
    upstream(409, "SYNC_CONFLICT"@, "synchronization conflicted with another update"@)(e)
}

fn revoked_error() -> (e: TonkWorkerError)
    ensures
        is_revoked_error(e),
{
    TonkWorkerError::Upstream {
        status: 403,
        code: Some(String::from_str("CREDENTIAL_REVOKED")),
        message: String::from_str("remote access has been revoked"),
    }
}

/// The error a sync reports when the upstream is temporarily unreachable.
pub fn unavailable_error() -> (e: TonkWorkerError)
    ensures
        is_unavailable_error(e),
{
    TonkWorkerError::Upstream {
        status: 503,
        code: Some(String::from_str("SYNC_UNAVAILABLE")),
        message: String::from_str("synchronization is temporarily unavailable"),
    }
}

fn upstream_error() -> (e: TonkWorkerError)
    ensures
        is_upstream_error(e),
{
    TonkWorkerError::Upstream {
        status: 502,
        code: Some(String::from_str("UPSTREAM_ERROR")),
        message: String::from_str("the upstream service could not complete synchronization"),
    }
}

fn conflict_error() -> (e: TonkWorkerError)
    ensures
        is_conflict_error(e),
{
    TonkWorkerError::Upstream {
        status: 409,
        code: Some(String::from_str("SYNC_CONFLICT")),
        message: String::from_str("synchronization conflicted with another update"),
    }
}

/// Classify a failure by the typed reasons its chain carries: a revoked
/// credential is a 403, an unreachable registry or proof a 503, any other
/// authorization failure a 502; without an authorization reason, a transient
/// rejection is a 503 and a permanent one a 502. `None` when the chain
/// carries neither.
pub fn classified_service_failure(failure: ServiceFailure) -> (r: Option<TonkWorkerError>)
    ensures
        match failure.authorization {
            Some(AuthorizationReason::Revoked) => r matches Some(e) && is_revoked_error(e),
            Some(AuthorizationReason::Unavailable) | Some(AuthorizationReason::UnavailableProof) => r matches Some(e) && is_unavailable_error(e),
            Some(AuthorizationReason::Other) => r matches Some(e) && is_upstream_error(e),
            None => match failure.rejection_transient {
                Some(true) => r matches Some(e) && is_unavailable_error(e),
                Some(false) => r matches Some(e) && is_upstream_error(e),
                None => r is None,
            },
        },
{
    match failure.authorization {
        Some(AuthorizationReason::Revoked) => Some(revoked_error()),
        Some(AuthorizationReason::Unavailable) | Some(AuthorizationReason::UnavailableProof) => {
            Some(unavailable_error())
        },
        Some(AuthorizationReason::Other) => Some(upstream_error()),
        None => match failure.rejection_transient {
            Some(true) => Some(unavailable_error()),
            Some(false) => Some(upstream_error()),
            None => None,
        },
    }
}

/// The error a failed pull or push reports: a raced head or a rejected
/// non-fast-forward push is a 409 conflict; otherwise the classified
/// service failure, defaulting to a 503.
pub fn sync_failure(failure: SyncFailure) -> (r: TonkWorkerError)
    ensures
        match failure {
            SyncFailure::HeadMoved | SyncFailure::NonFastForward => is_conflict_error(r),
            SyncFailure::Service(f) => match f.authorization {
                Some(AuthorizationReason::Revoked) => is_revoked_error(r),
                Some(AuthorizationReason::Unavailable) | Some(AuthorizationReason::UnavailableProof) => is_unavailable_error(r),
                Some(AuthorizationReason::Other) => is_upstream_error(r),
                None => match f.rejection_transient {
                    Some(false) => is_upstream_error(r),
                    _ => is_unavailable_error(r),
                },
            },
        },
{
    match failure {
        SyncFailure::HeadMoved | SyncFailure::NonFastForward => conflict_error(),
        SyncFailure::Service(f) => match classified_service_failure(f) {
            Some(e) => e,
            None => unavailable_error(),
        },
    }
}

/// A failed status fetch: the classified failure, defaulting to a 503.
pub fn status_fetch_failure(failure: ServiceFailure) -> (r: TonkWorkerError)
    ensures
        match classified_service_failure_spec(failure) {
            Some(k) => error_kind(r) == Some(k),
            None => is_unavailable_error(r),
        },
{
    match classified_service_failure(failure) {
        Some(e) => {
            proof { lemma_kind_of_classified(failure, e); }
            e
        },
        None => unavailable_error(),
    }
}

/// The upstream error kinds a sync reports.
#[derive(Clone, Copy, Debug, PartialEq, Eq, Structural)]
pub enum UpstreamKind {
    Revoked,
    Unavailable,
    Failed,
    Conflict,
}

pub open spec fn error_kind(e: TonkWorkerError) -> Option<UpstreamKind> {
    if is_revoked_error(e) {
        Some(UpstreamKind::Revoked)
    } else if is_unavailable_error(e) {
        Some(UpstreamKind::Unavailable)
    } else if is_upstream_error(e) {
        Some(UpstreamKind::Failed)
    } else if is_conflict_error(e) {
        Some(UpstreamKind::Conflict)
    } else {
        None
    }
}

pub open spec fn classified_service_failure_spec(f: ServiceFailure) -> Option<UpstreamKind> {
    match f.authorization {
        Some(AuthorizationReason::Revoked) => Some(UpstreamKind::Revoked),
        Some(AuthorizationReason::Unavailable) | Some(AuthorizationReason::UnavailableProof) => Some(UpstreamKind::Unavailable),
        Some(AuthorizationReason::Other) => Some(UpstreamKind::Failed),
        None => match f.rejection_transient {
            Some(true) => Some(UpstreamKind::Unavailable),
            Some(false) => Some(UpstreamKind::Failed),
            None => None,
        },
    }
}

proof fn lemma_kind_of_classified(f: ServiceFailure, e: TonkWorkerError)
    requires
        match f.authorization {
            Some(AuthorizationReason::Revoked) => is_revoked_error(e),
            Some(AuthorizationReason::Unavailable) | Some(AuthorizationReason::UnavailableProof) => is_unavailable_error(e),
            Some(AuthorizationReason::Other) => is_upstream_error(e),
            None => match f.rejection_transient {
                Some(true) => is_unavailable_error(e),
                Some(false) => is_upstream_error(e),
                None => false,
            },
        },
    ensures
        classified_service_failure_spec(f) matches Some(k) && error_kind(e) == Some(k),
{
    reveal_strlit("CREDENTIAL_REVOKED");
    reveal_strlit("SYNC_UNAVAILABLE");
    reveal_strlit("UPSTREAM_ERROR");
}

/// The live status a failed sync stamps on the chip.
#[derive(Clone, Copy, Debug, PartialEq, Eq, Structural)]
pub enum FailureStatus {
    /// Access was revoked.
    Revoked,
    /// The sync conflicted with another update.
    Conflict,
    /// Sync is unavailable.
    Unavailable,
}

/// The chip status for a failed sync: revoked or conflict when the error
/// carries that code, unavailable otherwise.
pub fn failure_status(error: &TonkWorkerError) -> (s: FailureStatus)
    ensures
        s == (match error {
            TonkWorkerError::Upstream { code: Some(c), .. } => if c@ == "CREDENTIAL_REVOKED"@ {
                FailureStatus::Revoked
            } else if c@ == "SYNC_CONFLICT"@ {
                FailureStatus::Conflict
            } else {
                FailureStatus::Unavailable
            },
            _ => FailureStatus::Unavailable,
        }),
{
    match error {
        TonkWorkerError::Upstream { code: Some(c), .. } => {
            if str_eq(c.as_str(), "CREDENTIAL_REVOKED") {
                FailureStatus::Revoked
            } else if str_eq(c.as_str(), "SYNC_CONFLICT") {
                FailureStatus::Conflict
            } else {
                FailureStatus::Unavailable
            }
        },
        _ => FailureStatus::Unavailable,
    }
}

/// Whether a raced pull on attempt `attempt` (counting from zero) is
/// refreshed and retried rather than reported.
pub fn retry_raced_pull(failure: SyncFailure, attempt: usize) -> (b: bool)
    requires
        attempt < SYNC_RETRY_LIMIT,
    ensures
        b == (failure == SyncFailure::HeadMoved && attempt + 1 < SYNC_RETRY_LIMIT),
{
    failure == SyncFailure::HeadMoved && attempt + 1 < SYNC_RETRY_LIMIT
}

/// Whether auto-sync is enabled, given the recorded `enabled` preference
/// facts: paused only when a fact explicitly says `false`; no fact means
/// enabled.
pub fn sync_enabled(preferences: &Vec<bool>) -> (b: bool)
    ensures
        b == !(exists|i: int| 0 <= i < preferences.len() && !#[trigger] preferences@[i]),
{
    let mut i: usize = 0;
    while i < preferences.len()
        invariant
            i <= preferences.len(),
            forall|j: int| 0 <= j < i ==> #[trigger] preferences@[j],
        decreases preferences.len() - i,
    {
        if !preferences[i] {
            return false;
        }
        i = i + 1;
    }
    true
}

/// What a pause toggle commits and stamps.
#[derive(Clone, Copy, Debug, PartialEq, Eq, Structural)]
pub struct PauseToggle {
    /// The preference committed.
    pub now_enabled: bool,
    /// The live status stamped: `pending` on resume, `paused` on pause.
    pub status: ToggleStatus,
}

/// The live status stamped after a pause toggle.
#[derive(Clone, Copy, Debug, PartialEq, Eq, Structural)]
pub enum ToggleStatus {
    Pending,
    Paused,
}

/// Flip the preference: an enabled replica pauses, a paused one resumes.
pub fn pause_toggle(was_enabled: bool) -> (t: PauseToggle)
    ensures
        t.now_enabled == !was_enabled,
        t.status == (if was_enabled {
            ToggleStatus::Paused
        } else {
            ToggleStatus::Pending
        }),
{
    let now_enabled = !was_enabled;
    PauseToggle {
        now_enabled,
        status: if now_enabled {
            ToggleStatus::Pending
        } else {
            ToggleStatus::Paused
        },
    }
}

/// `s` with every element after its first occurrence removed.
pub open spec fn first_occurrences(s: Seq<Seq<char>>) -> Seq<Seq<char>>
    decreases s.len(),
{
    if s.len() == 0 {
        Seq::empty()
    } else if first_occurrences(s.drop_last()).contains(s.last()) {
        first_occurrences(s.drop_last())
    } else {
        first_occurrences(s.drop_last()).push(s.last())
    }
}

/// A drain sweeps every pending or open repository exactly once: its
/// order holds no repository twice, and holds exactly the repositories it
/// was given.
pub proof fn law_drain_order_sweeps_each_once(s: Seq<Seq<char>>)
    ensures
        first_occurrences(s).no_duplicates(),
        forall|x: Seq<char>| first_occurrences(s).contains(x) <==> s.contains(x),
    decreases s.len(),
{
    if s.len() > 0 {
        let rest = s.drop_last();
        law_drain_order_sweeps_each_once(rest);
        let f = first_occurrences(rest);
        assert forall|x: Seq<char>| first_occurrences(s).contains(x) <==> s.contains(x) by {
            if s.contains(x) {
                let i = choose|i: int| 0 <= i < s.len() && s[i] == x;
                if i < s.len() - 1 {
                    assert(rest[i] == x);
                }
            }
            if rest.contains(x) {
                let i = choose|i: int| 0 <= i < rest.len() && rest[i] == x;
                assert(s[i] == x);
            }
            if f.contains(s.last()) {
            } else {
                assert(f.push(s.last()).last() == s.last());
                if f.push(s.last()).contains(x) {
                    let i = choose|i: int| 0 <= i < f.push(s.last()).len() && f.push(s.last())[i] == x;
                    if i < f.len() {
                        assert(f[i] == x);
                    }
                }
                if f.contains(x) {
                    let i = choose|i: int| 0 <= i < f.len() && f[i] == x;
                    assert(f.push(s.last())[i] == x);
                }
            }
        }
        if !f.contains(s.last()) {
            let g = f.push(s.last());
            assert forall|i: int, j: int| 0 <= i < g.len() && 0 <= j < g.len() && i != j implies g[i] != g[j] by {
                if i < f.len() && j < f.len() {
                    assert(g[i] == f[i] && g[j] == f[j]);
                } else if i < f.len() {
                    assert(g[i] == f[i]);
                } else if j < f.len() {
                    assert(g[j] == f[j]);
                }
            }
        }
    }
}

/// The drain's sweep order: the pending repositories, then every other
/// open repository, each once, in first-seen order.
pub fn drain_order(pending: Vec<String>, open: Vec<String>) -> (order: Vec<String>)
    ensures
        views(order@) == first_occurrences(views(pending@) + views(open@)),
{
    let ghost all = views(pending@) + views(open@);
    let mut combined = pending;
    let mut rest = open;
    combined.append(&mut rest);
    assert(views(combined@) =~= all);
    let mut order: Vec<String> = Vec::new();
    let mut i: usize = 0;
    let total = combined.len();
    while i < total
        invariant
            all == views(combined@),
            total == combined.len(),
            i <= total,
            views(order@) == first_occurrences(all.subrange(0, i as int)),
        decreases total - i,
    {
        let item = combined[i].clone();
        assert(item@ == all[i as int]);
        assert(all.subrange(0, i + 1).drop_last() =~= all.subrange(0, i as int));
        let mut seen = false;
        let mut j: usize = 0;
        while j < order.len()
            invariant
                j <= order.len(),
                seen == (exists|k: int| 0 <= k < j && (#[trigger] order@[k])@ == item@),
            decreases order.len() - j,
        {
            if str_eq(order[j].as_str(), item.as_str()) {
                seen = true;
            }
            j = j + 1;
        }
        proof {
            if seen {
                let k = choose|k: int| 0 <= k < order.len() && (#[trigger] order@[k])@ == item@;
                assert(views(order@)[k] == item@);
            } else {
                assert forall|k: int| 0 <= k < order.len() implies views(order@)[k] != item@ by {
                    assert(views(order@)[k] == order@[k]@);
                }
            }
        }
        if !seen {
            order.push(item);
        }
        i = i + 1;
        assert(views(order@) =~= first_occurrences(all.subrange(0, i as int)));
    }
    assert(all.subrange(0, total as int) =~= all);
    order
}

/// A sweep of `repo` failed on some branch.
pub fn sweep_failed_message(repo: &str) -> (m: String)
    ensures
        m@ == "background sync of '"@ + repo@ + "' did not fully reconcile"@,
{
    let mut m = String::from_str("background sync of '");
    m.append(repo);
    m.append("' did not fully reconcile");
    m
}

/// Path parameters for the sync endpoints.
#[derive(Clone, Debug)]
pub struct SyncPath {
    /// The repository name.
    pub repo: String,
    /// The branch name.
    pub branch: String,
}

/// How a sync request settled.
#[derive(Clone, Copy, Debug, PartialEq, Eq, Structural)]
pub enum SyncDisposition {
    /// Offline: nothing was attempted.
    Offline,
    /// The replica is paused: nothing was attempted.
    Paused,
    /// The pull and the push ran.
    Completed,
}

/// What a sync request does before touching the network.
#[derive(Clone, Copy, Debug, PartialEq, Eq, Structural)]
pub enum SyncGate {
    /// Report success with this disposition, without syncing.
    Skip(SyncDisposition),
    /// Pull, then push.
    Proceed,
}

/// An offline worker skips every sync; a paused replica (never the
/// account's own, which always syncs) skips too; otherwise the sync runs.
pub fn sync_gate(offline: bool, account_key: bool, enabled: bool) -> (g: SyncGate)
    ensures
        g == (if offline {
            SyncGate::Skip(SyncDisposition::Offline)
        } else if !account_key && !enabled {
            SyncGate::Skip(SyncDisposition::Paused)
        } else {
            SyncGate::Proceed
        }),
{
    if offline {
        SyncGate::Skip(SyncDisposition::Offline)
    } else if !account_key && !enabled {
        SyncGate::Skip(SyncDisposition::Paused)
    } else {
        SyncGate::Proceed
    }
}

/// What one pull attempt came back with.
#[derive(Clone, Copy, Debug, PartialEq, Eq, Structural)]
pub enum PullOutcome {
    /// The pull merged.
    Pulled,
    /// The pull failed.
    Failed(SyncFailure),
}

/// What the sync does after a pull attempt.
#[derive(Clone, Debug)]
pub enum PullStep {
    /// The pull is done; go on to push.
    Done,
    /// A commit raced the merge: refresh the head and try again.
    Refresh,
    /// Report this error and stop.
    Fail(TonkWorkerError),
}

/// The step after attempt `attempt` (from zero): a merged pull is done; a
/// raced one is refreshed and retried while attempts remain; any other
/// failure, or a race on the last attempt, is reported as classified.
pub fn pull_step(attempt: usize, outcome: PullOutcome) -> (s: PullStep)
    requires
        attempt < SYNC_RETRY_LIMIT,
    ensures
        outcome == PullOutcome::Pulled ==> s is Done,
        outcome matches PullOutcome::Failed(f) ==> (if f == SyncFailure::HeadMoved && attempt + 1 < SYNC_RETRY_LIMIT {
            s is Refresh
        } else {
            s matches PullStep::Fail(e) && (match f {
                SyncFailure::HeadMoved | SyncFailure::NonFastForward => is_conflict_error(e),
                SyncFailure::Service(sf) => match sf.authorization {
                    Some(AuthorizationReason::Revoked) => is_revoked_error(e),
                    Some(AuthorizationReason::Unavailable) | Some(AuthorizationReason::UnavailableProof) => is_unavailable_error(e),
                    Some(AuthorizationReason::Other) => is_upstream_error(e),
                    None => match sf.rejection_transient {
                        Some(false) => is_upstream_error(e),
                        _ => is_unavailable_error(e),
                    },
                },
            })
        }),
{
    match outcome {
        PullOutcome::Pulled => PullStep::Done,
        PullOutcome::Failed(f) => {
            if retry_raced_pull(f, attempt) {
                PullStep::Refresh
            } else {
                PullStep::Fail(sync_failure(f))
            }
        },
    }
}

/// The error a sync reports when refreshing after a raced pull fails.
pub fn refresh_failed_error() -> (e: TonkWorkerError)
    ensures
        e matches TonkWorkerError::Internal(m) && m@ == "failed to refresh local branch after a concurrent update"@,
{
    TonkWorkerError::Internal(String::from_str("failed to refresh local branch after a concurrent update"))
}

/// How a pull request starts.
#[derive(Clone, Debug)]
pub enum PullStart {
    /// The branch tracks nothing, so there is nothing to reconcile: a
    /// successful, completed sync whose revision stays where it was, with
    /// no network call.
    NoUpstream { before: Option<crate::config::Revision>, after: Option<crate::config::Revision>, disposition: SyncDisposition },
    /// Pull from the upstream.
    Pull,
}

/// The first decision of a pull: a branch without an upstream answers at
/// once, as a completed sync that moved nothing; otherwise it is pulled.
pub fn pull_start(has_upstream: bool, before: Option<crate::config::Revision>) -> (r: PullStart)
    ensures
        has_upstream <==> r is Pull,
        r matches PullStart::NoUpstream { before: b, after: a, disposition: d } ==> {
            &&& crate::transact::revision_view(b) == crate::transact::revision_view(before)
            &&& a == before
            &&& d == SyncDisposition::Completed
        },
{
    if has_upstream {
        PullStart::Pull
    } else {
        let copy = match &before {
            Some(r) => Some(crate::config::Revision { tree: r.tree.clone(), version: r.version.clone() }),
            None => None,
        };
        PullStart::NoUpstream { before: copy, after: before, disposition: SyncDisposition::Completed }
    }
}

/// A pull that landed a head other than the one before it changed what
/// live views show, and they are re-polled at once.
pub fn pull_moved_head(before: &Option<crate::config::Revision>, after_pull: &Option<crate::config::Revision>) -> (b: bool)
    ensures
        b == (match (*before, *after_pull) {
            (_, None) => false,
            (None, Some(_)) => true,
            (Some(x), Some(y)) => !(x.tree@ == y.tree@ && x.version@ == y.version@),
        }),
{
    match (before, after_pull) {
        (_, None) => false,
        (None, Some(_)) => true,
        (Some(x), Some(y)) => !(str_eq(x.tree.as_str(), y.tree.as_str()) && str_eq(x.version.as_str(), y.version.as_str())),
    }
}

/// The outcome of a background sweep of `repo`: it fails when any of its
/// branches did not reconcile, so the user agent retries with backoff.
pub fn sweep_result(repo: &str, any_failed: bool) -> (r: Result<(), String>)
    ensures
        !any_failed ==> r is Ok,
        any_failed ==> (r matches Err(m) && m@ == "background sync of '"@ + repo@ + "' did not fully reconcile"@),
{
    if any_failed {
        Err(sweep_failed_message(repo))
    } else {
        Ok(())
    }
}

/// The account rides the profile's main branch, which no open repository
/// represents, so a drain sweeps it explicitly unless one of the
/// repositories it swept was the account's own.
pub fn account_sweep_needed(swept_is_account: &Vec<bool>) -> (b: bool)
    ensures
        b == !(exists|i: int| 0 <= i < swept_is_account@.len() && #[trigger] swept_is_account@[i]),
{
    let mut i: usize = 0;
    while i < swept_is_account.len()
        invariant
            i <= swept_is_account@.len(),
            forall|j: int| 0 <= j < i ==> !#[trigger] swept_is_account@[j],
        decreases swept_is_account@.len() - i,
    {
        if swept_is_account[i] {
            return false;
        }
        i = i + 1;
    }
    true
}

/// What a status check does for a branch.
#[derive(Clone, Copy, Debug, PartialEq, Eq, Structural)]
pub enum StatusGate {
    /// The replica is paused: report no upstream and stamp `paused`,
    /// without touching the network.
    Paused,
    /// The branch tracks nothing: report no upstream.
    NoUpstream,
    /// Fetch the upstream and classify.
    Fetch,
}

/// A paused replica reports paused before anything else; a branch with no
/// upstream has nothing to compare with; otherwise the upstream is
/// fetched.
pub fn status_gate(enabled: bool, has_upstream: bool) -> (g: StatusGate)
    ensures
        g == (if !enabled {
            StatusGate::Paused
        } else if !has_upstream {
            StatusGate::NoUpstream
        } else {
            StatusGate::Fetch
        }),
{
    if !enabled {
        StatusGate::Paused
    } else if !has_upstream {
        StatusGate::NoUpstream
    } else {
        StatusGate::Fetch
    }
}

/// How a sync request ended.
#[derive(Clone, Copy, Debug, PartialEq, Eq, Structural)]
pub enum SyncEnd {
    /// Nothing was attempted (offline or paused); reported as success.
    Skipped(SyncDisposition),
    /// The pull and the push ran.
    Completed,
    /// The pull failed, as classified.
    PullFailed(SyncFailure),
    /// Refreshing after a raced pull failed.
    RefreshFailed,
    /// The push failed, as classified.
    PushFailed(SyncFailure),
}

/// Where a sync request stands.
#[derive(Clone, Copy, Debug, PartialEq, Eq, Structural)]
pub enum SyncRun {
    /// Before the offline and pause gates.
    Gate,
    /// Waiting for pull attempt `attempt` (from zero).
    Pull { attempt: usize },
    /// Waiting for the head refresh after raced attempt `attempt`.
    Refresh { attempt: usize },
    /// Waiting for the push.
    Push,
    /// Finished.
    Done(SyncEnd),
}

/// What a sync request learned since the last step.
#[derive(Clone, Copy, Debug, PartialEq, Eq, Structural)]
pub enum SyncEvent {
    /// The gates: offline, whether the repository is the account's own,
    /// and the replica's pause preference.
    Gated { offline: bool, account_key: bool, enabled: bool },
    /// The pull answered; `moved_head` when it landed a different head.
    Pulled { outcome: PullOutcome, moved_head: bool },
    /// The head refresh answered.
    Refreshed { ok: bool },
    /// The push answered; `None` on success.
    Pushed { failure: Option<SyncFailure> },
}

/// What a sync request does next.
#[derive(Clone, Copy, Debug, PartialEq, Eq, Structural)]
pub enum SyncAction {
    /// Stamp `offline` on the status chip.
    StampOffline,
    /// Stamp `paused` on the status chip.
    StampPaused,
    /// Stamp `pending` on the status chip before the network work.
    StampPending,
    /// Run pull attempt `attempt`.
    Pull { attempt: usize },
    /// Refresh the branch head after a raced pull.
    Refresh,
    /// Re-poll the views over the branch now: the pull moved the head.
    Repoll,
    /// Push.
    Push,
    /// Re-classify against the upstream and publish the settled status.
    Settle,
    /// Publish the failure status for the ending's error.
    ReportFailure,
}

/// The step a sync request takes on an event. An offline worker or a
/// paused replica never touches the network; a raced pull is refreshed
/// and retried up to the limit; a pull that moved the head repaints live
/// views before the push; a push settles the chip whichever way it went.
pub open spec fn sync_transition(s: SyncRun, e: SyncEvent) -> (SyncRun, Seq<SyncAction>) {
    match (s, e) {
        (SyncRun::Gate, SyncEvent::Gated { offline, account_key, enabled }) => if offline {
            (SyncRun::Done(SyncEnd::Skipped(SyncDisposition::Offline)), seq![SyncAction::StampOffline])
        } else if !account_key && !enabled {
            (SyncRun::Done(SyncEnd::Skipped(SyncDisposition::Paused)), seq![SyncAction::StampPaused])
        } else {
            (SyncRun::Pull { attempt: 0 }, seq![SyncAction::StampPending, SyncAction::Pull { attempt: 0 }])
        },
        (SyncRun::Pull { attempt }, SyncEvent::Pulled { outcome, moved_head }) => match outcome {
            PullOutcome::Pulled => if moved_head {
                (SyncRun::Push, seq![SyncAction::Repoll, SyncAction::Push])
            } else {
                (SyncRun::Push, seq![SyncAction::Push])
            },
            PullOutcome::Failed(f) => if f == SyncFailure::HeadMoved && attempt + 1 < SYNC_RETRY_LIMIT {
                (SyncRun::Refresh { attempt }, seq![SyncAction::Refresh])
            } else {
                (SyncRun::Done(SyncEnd::PullFailed(f)), seq![SyncAction::ReportFailure])
            },
        },
        (SyncRun::Refresh { attempt }, SyncEvent::Refreshed { ok }) => if ok && attempt + 1 < SYNC_RETRY_LIMIT {
            (SyncRun::Pull { attempt: (attempt + 1) as usize }, seq![SyncAction::Pull { attempt: (attempt + 1) as usize }])
        } else {
            (SyncRun::Done(SyncEnd::RefreshFailed), seq![SyncAction::ReportFailure])
        },
        (SyncRun::Push, SyncEvent::Pushed { failure }) => match failure {
            None => (SyncRun::Done(SyncEnd::Completed), seq![SyncAction::Settle]),
            Some(f) => (SyncRun::Done(SyncEnd::PushFailed(f)), seq![SyncAction::Settle, SyncAction::ReportFailure]),
        },
        (s, _) => (s, Seq::empty()),
    }
}

/// Advance a sync request by one event.
pub fn sync_step(state: SyncRun, event: SyncEvent) -> (r: (SyncRun, Vec<SyncAction>))
    ensures
        r.0 == sync_transition(state, event).0,
        r.1@ == sync_transition(state, event).1,
        (state is Gate && event matches SyncEvent::Gated { offline: false, account_key: true, .. }) ==> (r.0
            == SyncRun::Pull { attempt: 0 } && r.1@ == seq![SyncAction::StampPending, SyncAction::Pull { attempt: 0 }]),
        (match event {
            SyncEvent::Pulled { outcome: PullOutcome::Failed(f), .. } => (state is Pull && f != SyncFailure::HeadMoved)
                ==> (r.0 == SyncRun::Done(SyncEnd::PullFailed(f)) && r.1@ == seq![SyncAction::ReportFailure]),
            _ => true,
        }),
{
    match (state, event) {
        (SyncRun::Gate, SyncEvent::Gated { offline, account_key, enabled }) => {
            match sync_gate(offline, account_key, enabled) {
                SyncGate::Skip(SyncDisposition::Offline) => (
                    SyncRun::Done(SyncEnd::Skipped(SyncDisposition::Offline)),
                    vec![SyncAction::StampOffline],
                ),
                SyncGate::Skip(d) => (SyncRun::Done(SyncEnd::Skipped(d)), vec![SyncAction::StampPaused]),
                SyncGate::Proceed => (
                    SyncRun::Pull { attempt: 0 },
                    vec![SyncAction::StampPending, SyncAction::Pull { attempt: 0 }],
                ),
            }
        },
        (SyncRun::Pull { attempt }, SyncEvent::Pulled { outcome, moved_head }) => match outcome {
            PullOutcome::Pulled => if moved_head {
                (SyncRun::Push, vec![SyncAction::Repoll, SyncAction::Push])
            } else {
                (SyncRun::Push, vec![SyncAction::Push])
            },
            PullOutcome::Failed(f) => if f == SyncFailure::HeadMoved && attempt < SYNC_RETRY_LIMIT - 1 {
                (SyncRun::Refresh { attempt }, vec![SyncAction::Refresh])
            } else {
                (SyncRun::Done(SyncEnd::PullFailed(f)), vec![SyncAction::ReportFailure])
            },
        },
        (SyncRun::Refresh { attempt }, SyncEvent::Refreshed { ok }) => if ok && attempt < SYNC_RETRY_LIMIT - 1 {
            (SyncRun::Pull { attempt: attempt + 1 }, vec![SyncAction::Pull { attempt: attempt + 1 }])
        } else {
            (SyncRun::Done(SyncEnd::RefreshFailed), vec![SyncAction::ReportFailure])
        },
        (SyncRun::Push, SyncEvent::Pushed { failure }) => match failure {
            None => (SyncRun::Done(SyncEnd::Completed), vec![SyncAction::Settle]),
            Some(f) => (SyncRun::Done(SyncEnd::PushFailed(f)), vec![SyncAction::Settle, SyncAction::ReportFailure]),
        },
        (s, _) => (s, Vec::new()),
    }
}

/// Whether a sync request's state is one the steps can reach: a pull
/// attempt is within the retry limit, and a refresh only follows an
/// attempt that leaves another.
pub open spec fn sync_run_valid(s: SyncRun) -> bool {
    match s {
        SyncRun::Pull { attempt } => attempt < SYNC_RETRY_LIMIT,
        SyncRun::Refresh { attempt } => attempt + 1 < SYNC_RETRY_LIMIT,
        _ => true,
    }
}

/// The account's own repository always syncs while online: its gate
/// stamps the request pending and starts the first pull, whatever the
/// pause preference says.
pub proof fn law_account_repository_always_syncs(enabled: bool)
    ensures
        ({
            let (next, actions) = sync_transition(
                SyncRun::Gate,
                SyncEvent::Gated { offline: false, account_key: true, enabled },
            );
            &&& next == SyncRun::Pull { attempt: 0 }
            &&& actions =~= seq![SyncAction::StampPending, SyncAction::Pull { attempt: 0 }]
        }),
{
}

/// Only a raced head is retried: a pull that failed any other way ends
/// the request at once, reporting that failure, at every attempt.
pub proof fn law_only_a_raced_head_is_retried(attempt: usize, f: SyncFailure, moved_head: bool)
    requires
        f != SyncFailure::HeadMoved,
    ensures
        ({
            let (next, actions) = sync_transition(
                SyncRun::Pull { attempt },
                SyncEvent::Pulled { outcome: PullOutcome::Failed(f), moved_head },
            );
            &&& next == SyncRun::Done(SyncEnd::PullFailed(f))
            &&& actions =~= seq![SyncAction::ReportFailure]
        }),
{
}

/// A sync request never pulls more often than the retry limit allows:
/// every step from a reachable state leads to a reachable state.
pub proof fn law_pull_attempts_stay_bounded(s: SyncRun, e: SyncEvent)
    requires
        sync_run_valid(s),
    ensures
        sync_run_valid(sync_transition(s, e).0),
{
}

/// An offline worker or a paused replica never touches the network: the
/// gate then ends the request without a pull or a push.
pub proof fn law_skipped_sync_stays_local(offline: bool, account_key: bool, enabled: bool)
    requires
        offline || (!account_key && !enabled),
    ensures
        ({
            let (next, actions) = sync_transition(SyncRun::Gate, SyncEvent::Gated { offline, account_key, enabled });
            &&& next is Done
            &&& forall|k: int| 0 <= k < actions.len() ==> !(#[trigger] actions[k] is Pull) && !(actions[k] is Push)
        }),
{
}

} // verus!
