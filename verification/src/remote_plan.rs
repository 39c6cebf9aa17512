//! Wiring a repository's remotes and branch upstreams: which remotes are
//! created and which reused, what configuration actually took effect, and
//! which upstream references a request may make.

use vstd::prelude::*;
use crate::config::{BranchConfiguration, RemoteConfiguration, RepositoryConfiguration, UpstreamConfiguration};
use crate::errors::RepositoryError;
use crate::named::{NamedMap, names};
use crate::repo_info::remote_view;
use crate::text::str_eq;

verus! {

/// The remote already present at the storage layer: its subject DID and
/// its address.
#[derive(Clone, Debug)]
pub struct ExistingRemote {
    pub subject: String,
    pub address: String,
}

/// What happens to a configured remote at the storage layer.
#[derive(Clone, Debug)]
pub enum RemoteAction {
    /// It exists and is left as it is.
    Reuse,
    /// It is created at `address`, with `subject` overriding the
    /// repository's own DID when the request named one.
    Create { address: String, subject: Option<String> },
}

/// A remote's subject: the one requested, else the repository's own DID.
pub open spec fn subject_or(requested: Option<String>, repo_did: Seq<char>) -> Seq<char> {
    match requested {
        Some(s) => s@,
        None => repo_did,
    }
}

/// The create action for a requested remote.
pub open spec fn create_action(request: RemoteConfiguration) -> RemoteAction {
    RemoteAction::Create { address: request.address, subject: request.subject }
}

/// Re-wiring an existing repository: an existing remote is left alone and
/// the configuration that took effect follows the remote really there (its
/// subject and address); a missing one is created as requested, taking
/// the repository's DID as subject unless one was named. The relay is
/// always the requested one.
pub fn ensure_remote(request: &RemoteConfiguration, repo_did: &str, existing: Option<ExistingRemote>) -> (r: (RemoteConfiguration, RemoteAction))
    ensures
        r.0.revocation_url == request.revocation_url,
        match existing {
            Some(e) => {
                &&& r.0.address == e.address
                &&& r.0.subject == Some(e.subject)
                &&& r.1 is Reuse
            },
            None => {
                &&& r.0.address == request.address
                &&& r.0.subject matches Some(s) && s@ == subject_or(request.subject, repo_did@)
                &&& r.1 == create_action(*request)
            },
        },
{
    match existing {
        Some(e) => (
            RemoteConfiguration { address: e.address, subject: Some(e.subject), revocation_url: request.revocation_url.clone() },
            RemoteAction::Reuse,
        ),
        None => {
            let subject = match &request.subject {
                Some(s) => s.clone(),
                None => String::from_str(repo_did),
            };
            (
                RemoteConfiguration {
                    address: request.address.clone(),
                    subject: Some(subject),
                    revocation_url: request.revocation_url.clone(),
                },
                RemoteAction::Create { address: request.address.clone(), subject: request.subject.clone() },
            )
        },
    }
}

/// An existing remote as `(subject, address)`.
pub open spec fn existing_view(e: Option<ExistingRemote>) -> Option<(Seq<char>, Seq<char>)> {
    match e {
        Some(x) => Some((x.subject@, x.address@)),
        None => None,
    }
}

/// The remote that takes effect for `request` when the storage layer
/// holds `existing` (as `(subject, address)`), as `(address, subject,
/// revocation URL)`: the remote really there, or the requested one with
/// the repository's DID as default subject; the relay is the requested
/// one either way.
pub open spec fn effective_view(
    request: RemoteConfiguration,
    repo_did: Seq<char>,
    existing: Option<(Seq<char>, Seq<char>)>,
) -> (Seq<char>, Option<Seq<char>>, Option<Seq<char>>) {
    let revocation = match request.revocation_url {
        Some(u) => Some(u@),
        None => None,
    };
    match existing {
        Some((subject, address)) => (address, Some(subject), revocation),
        None => (request.address@, Some(subject_or(request.subject, repo_did)), revocation),
    }
}

/// What the storage layer is asked to do for `request`.
pub open spec fn action_for(request: RemoteConfiguration, existing: Option<ExistingRemote>) -> RemoteAction {
    if existing is Some {
        RemoteAction::Reuse
    } else {
        create_action(request)
    }
}

fn copy_existing(e: &Option<ExistingRemote>) -> (r: Option<ExistingRemote>)
    ensures
        r == *e,
{
    match e {
        Some(x) => Some(ExistingRemote { subject: x.subject.clone(), address: x.address.clone() }),
        None => None,
    }
}

/// The configuration that actually took effect when re-wiring an existing
/// repository, and what is asked of the storage layer for each remote:
/// `existing[i]` is what the storage layer holds under the `i`-th
/// requested remote's name. Every requested remote is kept under its name
/// as `ensure_remote` settles it; the branches are the requested ones.
pub fn effective_configuration(
    configuration: RepositoryConfiguration,
    repo_did: &str,
    existing: &Vec<Option<ExistingRemote>>,
) -> (r: (RepositoryConfiguration, Vec<RemoteAction>))
    requires
        configuration.wf(),
        existing@.len() == configuration.remote.entries().len(),
    ensures
        r.0.wf(),
        r.0.branch == configuration.branch,
        r.0.remote.as_map().dom() == configuration.remote.as_map().dom(),
        r.1@.len() == existing@.len(),
        forall|i: int|
            #![trigger configuration.remote.entries()[i]]
            0 <= i < existing@.len() ==> remote_view(r.0.remote.as_map()[configuration.remote.entries()[i].0@])
                == effective_view(configuration.remote.entries()[i].1, repo_did@, existing_view(existing@[i])),
        forall|i: int|
            #![trigger configuration.remote.entries()[i]]
            0 <= i < existing@.len() ==> r.1@[i] == action_for(configuration.remote.entries()[i].1, existing@[i]),
{
    let ghost entries = configuration.remote.entries();
    let n = configuration.remote.len();
    let mut remote: NamedMap<RemoteConfiguration> = NamedMap::new();
    let mut actions: Vec<RemoteAction> = Vec::new();
    let mut i: usize = 0;
    while i < n
        invariant
            configuration.wf(),
            entries == configuration.remote.entries(),
            n == entries.len(),
            existing@.len() == n,
            i <= n,
            remote.wf(),
            actions@.len() == i,
            forall|k: Seq<char>| #[trigger] remote.as_map().contains_key(k) <==> names(entries.subrange(0, i as int), k),
            forall|j: int|
                #![trigger entries[j]]
                0 <= j < i ==> remote_view(remote.as_map()[entries[j].0@]) == effective_view(
                    entries[j].1,
                    repo_did@,
                    existing_view(existing@[j]),
                ),
            forall|j: int| #![trigger entries[j]] 0 <= j < i ==> actions@[j] == action_for(entries[j].1, existing@[j]),
        decreases n - i,
    {
        let name = configuration.remote.name_at(i);
        let request = configuration.remote.value_at(i);
        let ex = copy_existing(&existing[i]);
        let (took, action) = ensure_remote(request, repo_did, ex);
        remote.insert(name.clone(), took);
        actions.push(action);
        proof {
            let pre = entries.subrange(0, i as int);
            let next = entries.subrange(0, i + 1);
            assert forall|k: Seq<char>| #[trigger] remote.as_map().contains_key(k) <==> names(next, k) by {
                if names(pre, k) {
                    let a = choose|a: int| 0 <= a < pre.len() && (#[trigger] pre[a]).0@ == k;
                    assert(next[a] == pre[a]);
                }
                if names(next, k) {
                    let a = choose|a: int| 0 <= a < next.len() && (#[trigger] next[a]).0@ == k;
                    if a < i {
                        assert(pre[a] == next[a]);
                    }
                }
                if k == entries[i as int].0@ {
                    assert(next[i as int] == entries[i as int]);
                }
            }
            assert forall|j: int| #![trigger entries[j]] 0 <= j <= i implies remote_view(remote.as_map()[entries[j].0@])
                == effective_view(entries[j].1, repo_did@, existing_view(existing@[j])) by {
                if j < i {
                    assert(entries[j].0@ != entries[i as int].0@);
                }
            }
        }
        i = i + 1;
    }
    proof {
        assert(entries.subrange(0, n as int) =~= entries);
        assert forall|k: Seq<char>| #[trigger] remote.as_map().dom().contains(k) <==> configuration.remote.as_map().dom().contains(k) by {
            assert(remote.as_map().contains_key(k) <==> names(entries, k));
        }
        assert(remote.as_map().dom() =~= configuration.remote.as_map().dom());
    }
    let RepositoryConfiguration { remote: _, branch } = configuration;
    (RepositoryConfiguration { remote, branch }, actions)
}

/// A branch is taken to track an upstream only when it follows that very
/// remote branch: no upstream, another remote of the same branch name, or
/// another branch of the same remote is not tracking it, so the upstream
/// is set; following exactly it is, so the upstream is left alone.
pub proof fn law_tracking_needs_remote_and_branch(current: Option<UpstreamConfiguration>, wanted: UpstreamConfiguration)
    ensures
        current is None ==> !tracks(current, wanted),
        current matches Some(u) && u.remote@ != wanted.remote@ ==> !tracks(current, wanted),
        current matches Some(u) && u.branch@ != wanted.branch@ ==> !tracks(current, wanted),
        current matches Some(u) && u.remote@ == wanted.remote@ && u.branch@ == wanted.branch@ ==> tracks(current, wanted),
{
}

/// Wiring twice changes nothing: once a remote has taken effect, asking
/// for it again finds it there and settles on the same remote; and a
/// branch set to track an upstream is found tracking it, so its upstream
/// is not set again.
pub proof fn law_rewiring_is_idempotent(
    request: RemoteConfiguration,
    repo_did: Seq<char>,
    existing: Option<(Seq<char>, Seq<char>)>,
    wanted: UpstreamConfiguration,
)
    ensures
        ({
            let took = effective_view(request, repo_did, existing);
            effective_view(request, repo_did, Some((took.1->0, took.0))) == took
        }),
        tracks(Some(wanted), wanted),
{
}

/// Recording a freshly created repository's remotes: an existing remote
/// must already be exactly the one requested (same subject, same
/// address), else the request is refused; a missing one is created.
pub fn prepare_remote(name: &str, request: &RemoteConfiguration, repo_did: &str, existing: Option<ExistingRemote>) -> (r: Result<RemoteAction, RepositoryError>)
    ensures
        match existing {
            Some(e) => if e.subject@ == subject_or(request.subject, repo_did@) && e.address@ == request.address@ {
                r matches Ok(a) && a is Reuse
            } else {
                r matches Err(RepositoryError::InvalidConfiguration(m)) && m@ == "Remote '"@ + name@
                    + "' is already configured differently"@
            },
            None => r == Ok::<RemoteAction, RepositoryError>(create_action(*request)),
        },
{
    match existing {
        Some(e) => {
            let same_subject = match &request.subject {
                Some(s) => str_eq(e.subject.as_str(), s.as_str()),
                None => str_eq(e.subject.as_str(), repo_did),
            };
            if same_subject && str_eq(e.address.as_str(), request.address.as_str()) {
                Ok(RemoteAction::Reuse)
            } else {
                let mut m = String::from_str("Remote '");
                m.append(name);
                m.append("' is already configured differently");
                Err(RepositoryError::InvalidConfiguration(m))
            }
        },
        None => Ok(RemoteAction::Create { address: request.address.clone(), subject: request.subject.clone() }),
    }
}

/// Whether the storage layer already holds a remote under the requested
/// name that differs from the request in subject or address.
pub open spec fn conflicts(request: RemoteConfiguration, repo_did: Seq<char>, existing: Option<ExistingRemote>) -> bool {
    match existing {
        Some(e) => !(e.subject@ == subject_or(request.subject, repo_did) && e.address@ == request.address@),
        None => false,
    }
}

/// Preparing a freshly created repository's remotes, in entry order:
/// `existing[i]` is what the storage layer holds under the `i`-th
/// requested remote's name. Returns the actions for the remotes prepared
/// before the first conflicting one, and the refusal of that remote (none
/// when every remote agrees).
pub fn prepare_remotes(configuration: &RepositoryConfiguration, repo_did: &str, existing: &Vec<Option<ExistingRemote>>) -> (r: (Vec<RemoteAction>, Option<RepositoryError>))
    requires
        configuration.wf(),
        existing@.len() == configuration.remote.entries().len(),
    ensures
        r.0@.len() <= existing@.len(),
        forall|j: int|
            #![trigger configuration.remote.entries()[j]]
            0 <= j < r.0@.len() ==> !conflicts(configuration.remote.entries()[j].1, repo_did@, existing@[j]) && r.0@[j]
                == action_for(configuration.remote.entries()[j].1, existing@[j]),
        r.1 is None <==> r.0@.len() == existing@.len(),
        r.1 matches Some(e) ==> {
            let k = r.0@.len() as int;
            &&& conflicts(configuration.remote.entries()[k].1, repo_did@, existing@[k])
            &&& e matches RepositoryError::InvalidConfiguration(m) && m@ == "Remote '"@
                + configuration.remote.entries()[k].0@ + "' is already configured differently"@
        },
{
    let n = configuration.remote.len();
    let mut actions: Vec<RemoteAction> = Vec::new();
    let mut i: usize = 0;
    while i < n
        invariant
            configuration.wf(),
            n == configuration.remote.entries().len(),
            existing@.len() == n,
            i <= n,
            actions@.len() == i,
            forall|j: int|
                #![trigger configuration.remote.entries()[j]]
                0 <= j < i ==> !conflicts(configuration.remote.entries()[j].1, repo_did@, existing@[j]) && actions@[j]
                    == action_for(configuration.remote.entries()[j].1, existing@[j]),
        decreases n - i,
    {
        let name = configuration.remote.name_at(i);
        let request = configuration.remote.value_at(i);
        let ex = copy_existing(&existing[i]);
        match prepare_remote(name.as_str(), request, repo_did, ex) {
            Ok(action) => actions.push(action),
            Err(e) => return (actions, Some(e)),
        }
        i = i + 1;
    }
    (actions, None)
}

/// A configuration with no remotes and no branches asks for nothing.
pub fn asks_nothing(configuration: &RepositoryConfiguration) -> (b: bool)
    requires
        configuration.wf(),
    ensures
        b == (configuration.remote.as_map().dom().len() == 0 && configuration.branch.as_map().dom().len() == 0),
{
    configuration.remote.is_empty() && configuration.branch.is_empty()
}

/// Whether a branch whose upstream is `current` tracks `wanted`: the same
/// remote and the same remote branch.
pub open spec fn tracks(current: Option<UpstreamConfiguration>, wanted: UpstreamConfiguration) -> bool {
    match current {
        Some(u) => u.remote@ == wanted.remote@ && u.branch@ == wanted.branch@,
        None => false,
    }
}

/// Whether a branch already tracks the wanted upstream; only then is the
/// upstream left alone (setting it again would reset the branch's sync
/// divergence base).
pub fn already_tracking(current: &Option<UpstreamConfiguration>, wanted: &UpstreamConfiguration) -> (b: bool)
    ensures
        b == tracks(*current, *wanted),
        b ==> (current matches Some(u) && u.remote@ == wanted.remote@ && u.branch@ == wanted.branch@),
        (current matches Some(u) && u.remote@ == wanted.remote@ && u.branch@ == wanted.branch@) ==> b,
{
    match current {
        Some(u) => str_eq(u.remote.as_str(), wanted.remote.as_str()) && str_eq(u.branch.as_str(), wanted.branch.as_str()),
        None => false,
    }
}

/// Whether the branch entry at `i` names an upstream on a remote the
/// configuration does not hold.
pub open spec fn dangling_at(c: RepositoryConfiguration, i: int) -> bool {
    c.branch.entries()[i].1.upstream matches Some(u) && !c.remote.as_map().contains_key(u.remote@)
}

/// How an upstream naming an unknown remote is reported.
#[derive(Clone, Copy, Debug, PartialEq, Eq, Structural)]
pub enum UnknownRemoteWording {
    /// On creation: the remote is unknown.
    Unknown,
    /// On re-wiring: the remote is not in the request.
    NotInRequest,
}

/// The message for branch `b` naming unknown remote `r`.
pub open spec fn dangling_message(w: UnknownRemoteWording, b: Seq<char>, r: Seq<char>) -> Seq<char> {
    match w {
        UnknownRemoteWording::Unknown => "Upstream for branch '"@ + b + "' references unknown remote '"@ + r + "'"@,
        UnknownRemoteWording::NotInRequest => "Upstream for branch '"@ + b + "' references remote '"@ + r
            + "', which is not in the request"@,
    }
}

/// The upstream wiring a configuration asks for: every branch that names
/// an upstream, in entry order. An upstream may only reference a remote
/// of the same configuration; the first branch (in entry order) that
/// references another is refused.
pub fn upstream_wiring(configuration: &RepositoryConfiguration, wording: UnknownRemoteWording) -> (r: Result<Vec<(String, UpstreamConfiguration)>, RepositoryError>)
    requires
        configuration.wf(),
    ensures
        r is Ok <==> forall|i: int| 0 <= i < configuration.branch.entries().len() ==> !dangling_at(*configuration, i),
        r matches Ok(w) ==> w@ == wiring_of(configuration.branch.entries()),
        r matches Err(e) ==> exists|i: int|
            0 <= i < configuration.branch.entries().len() && (forall|j: int| 0 <= j < i ==> !dangling_at(*configuration, j))
                && #[trigger] dangling_at(*configuration, i) && (e matches RepositoryError::InvalidConfiguration(m) && m@
                == dangling_message(
                wording,
                configuration.branch.entries()[i].0@,
                configuration.branch.entries()[i].1.upstream->0.remote@,
            )),
{
    let n = configuration.branch.len();
    let mut out: Vec<(String, UpstreamConfiguration)> = Vec::new();
    let mut i: usize = 0;
    while i < n
        invariant
            configuration.wf(),
            n == configuration.branch.entries().len(),
            i <= n,
            forall|j: int| 0 <= j < i ==> !dangling_at(*configuration, j),
            out@ == wiring_of(configuration.branch.entries().subrange(0, i as int)),
        decreases n - i,
    {
        let ghost pre = configuration.branch.entries().subrange(0, i + 1);
        assert(pre.drop_last() =~= configuration.branch.entries().subrange(0, i as int));
        assert(pre.last() == configuration.branch.entries()[i as int]);
        let name = configuration.branch.name_at(i);
        let settings = configuration.branch.value_at(i);
        match &settings.upstream {
            None => {},
            Some(u) => {
                if !configuration.remote.contains_key(u.remote.as_str()) {
                    assert(dangling_at(*configuration, i as int));
                    let mut m = String::from_str("Upstream for branch '");
                    m.append(name.as_str());
                    match wording {
                        UnknownRemoteWording::Unknown => {
                            m.append("' references unknown remote '");
                            m.append(u.remote.as_str());
                            m.append("'");
                        },
                        UnknownRemoteWording::NotInRequest => {
                            m.append("' references remote '");
                            m.append(u.remote.as_str());
                            m.append("', which is not in the request");
                        },
                    }
                    return Err(RepositoryError::InvalidConfiguration(m));
                }
                out.push((name.clone(), u.clone_upstream()));
            },
        }
        i = i + 1;
    }
    assert(configuration.branch.entries().subrange(0, n as int) =~= configuration.branch.entries());
    Ok(out)
}

/// The branches of `entries` that name an upstream, with it, in order.
pub open spec fn wiring_of(entries: Seq<(String, BranchConfiguration)>) -> Seq<(String, UpstreamConfiguration)>
    decreases entries.len(),
{
    if entries.len() == 0 {
        Seq::empty()
    } else {
        let rest = wiring_of(entries.drop_last());
        match entries.last().1.upstream {
            Some(u) => rest.push((entries.last().0, u)),
            None => rest,
        }
    }
}

impl UpstreamConfiguration {
    /// A copy of this upstream.
    pub fn clone_upstream(&self) -> (c: Self)
        ensures
            c == *self,
    {
        UpstreamConfiguration { remote: self.remote.clone(), branch: self.branch.clone() }
    }
}

} // verus!
