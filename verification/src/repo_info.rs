//! A repository's branches and remotes as the meta branch records them,
//! assembled into the configuration the repository endpoint reports.
//!
//! Rows are read as the meta branch returns them; where several rows share
//! a key, the later one wins, as building a map from them would.

use vstd::prelude::*;
use crate::config::{BranchConfiguration, RemoteConfiguration, Revision, UpstreamConfiguration};
use crate::named::NamedMap;
use crate::roster::{Row, last_value};
use crate::text::str_eq;

verus! {

/// A branch concept on the meta branch: its entity, name and origin (the
/// replica for a local branch, a remote for a remote-side branch).
#[derive(Clone, Debug)]
pub struct BranchRow {
    pub entity: String,
    pub name: String,
    pub origin: String,
}

/// A remote concept scoped to this replica. `address` is `None` when the
/// stored address did not decode; `subject` is `None` when the stored
/// subject is not a DID.
#[derive(Clone, Debug)]
pub struct RemoteRow {
    pub entity: String,
    pub name: String,
    pub subject: Option<String>,
    pub address: Option<String>,
}

/// The last branch row with entity `e`.
pub open spec fn branch_by_entity(rows: Seq<BranchRow>, e: Seq<char>) -> Option<BranchRow>
    decreases rows.len(),
{
    if rows.len() == 0 {
        None
    } else if rows.last().entity@ == e {
        Some(rows.last())
    } else {
        branch_by_entity(rows.drop_last(), e)
    }
}

/// The last remote row with entity `e`.
pub open spec fn remote_by_entity(rows: Seq<RemoteRow>, e: Seq<char>) -> Option<RemoteRow>
    decreases rows.len(),
{
    if rows.len() == 0 {
        None
    } else if rows.last().entity@ == e {
        Some(rows.last())
    } else {
        remote_by_entity(rows.drop_last(), e)
    }
}

/// The upstream of the local branch `e`: the branch its tracking link
/// points at, on the remote that branch belongs to; none when any link in
/// that chain is missing.
pub open spec fn upstream_for(
    branches: Seq<BranchRow>,
    remotes: Seq<RemoteRow>,
    tracking: Seq<Row>,
    e: Seq<char>,
) -> Option<UpstreamConfiguration> {
    match last_value(tracking, e) {
        None => None,
        Some(u) => match branch_by_entity(branches, u@) {
            None => None,
            Some(tb) => match remote_by_entity(remotes, tb.origin@) {
                None => None,
                Some(rm) => Some(UpstreamConfiguration { remote: rm.name, branch: tb.name }),
            },
        },
    }
}

/// Whether a branch row is a real local branch of `replica`: its origin
/// is the replica, and it is not a remote (remotes share the branch
/// concept's attributes and turn up among branch rows).
pub open spec fn is_local_branch(b: BranchRow, remotes: Seq<RemoteRow>, replica: Seq<char>) -> bool {
    b.origin@ == replica && remote_by_entity(remotes, b.entity@) is None
}

/// The last revision recorded for branch `name`.
pub open spec fn revision_for(revisions: Seq<(String, Option<Revision>)>, name: Seq<char>) -> Option<Revision>
    decreases revisions.len(),
{
    if revisions.len() == 0 {
        None
    } else if revisions.last().0@ == name {
        revisions.last().1
    } else {
        revision_for(revisions.drop_last(), name)
    }
}

/// The branch map: every local branch, by name, with its upstream and
/// revision; a later row of the same name replaces an earlier one.
pub open spec fn branch_map(
    branches: Seq<BranchRow>,
    all: Seq<BranchRow>,
    remotes: Seq<RemoteRow>,
    tracking: Seq<Row>,
    revisions: Seq<(String, Option<Revision>)>,
    replica: Seq<char>,
) -> Map<Seq<char>, BranchConfiguration>
    decreases branches.len(),
{
    if branches.len() == 0 {
        Map::empty()
    } else {
        let m = branch_map(branches.drop_last(), all, remotes, tracking, revisions, replica);
        let b = branches.last();
        if is_local_branch(b, remotes, replica) {
            m.insert(
                b.name@,
                BranchConfiguration {
                    upstream: upstream_for(all, remotes, tracking, b.entity@),
                    revision: revision_for(revisions, b.name@),
                },
            )
        } else {
            m
        }
    }
}

fn find_branch(rows: &Vec<BranchRow>, e: &str) -> (r: Option<usize>)
    ensures
        match r {
            Some(i) => i < rows@.len() && branch_by_entity(rows@, e@) == Some(rows@[i as int]),
            None => branch_by_entity(rows@, e@) is None,
        },
{
    let mut i = rows.len();
    assert(rows@.subrange(0, i as int) =~= rows@);
    while i > 0
        invariant
            i <= rows.len(),
            branch_by_entity(rows@, e@) == branch_by_entity(rows@.subrange(0, i as int), e@),
        decreases i,
    {
        let ghost pre = rows@.subrange(0, i as int);
        assert(pre.drop_last() =~= rows@.subrange(0, i - 1));
        assert(pre.last() == rows@[i - 1]);
        if str_eq(rows[i - 1].entity.as_str(), e) {
            return Some(i - 1);
        }
        i = i - 1;
    }
    None
}

fn find_remote(rows: &Vec<RemoteRow>, e: &str) -> (r: Option<usize>)
    ensures
        match r {
            Some(i) => i < rows@.len() && remote_by_entity(rows@, e@) == Some(rows@[i as int]),
            None => remote_by_entity(rows@, e@) is None,
        },
{
    let mut i = rows.len();
    assert(rows@.subrange(0, i as int) =~= rows@);
    while i > 0
        invariant
            i <= rows.len(),
            remote_by_entity(rows@, e@) == remote_by_entity(rows@.subrange(0, i as int), e@),
        decreases i,
    {
        let ghost pre = rows@.subrange(0, i as int);
        assert(pre.drop_last() =~= rows@.subrange(0, i - 1));
        assert(pre.last() == rows@[i - 1]);
        if str_eq(rows[i - 1].entity.as_str(), e) {
            return Some(i - 1);
        }
        i = i - 1;
    }
    None
}

fn find_revision(revisions: &Vec<(String, Option<Revision>)>, name: &str) -> (r: Option<Revision>)
    ensures
        r == revision_for(revisions@, name@),
{
    let mut i = revisions.len();
    assert(revisions@.subrange(0, i as int) =~= revisions@);
    while i > 0
        invariant
            i <= revisions.len(),
            revision_for(revisions@, name@) == revision_for(revisions@.subrange(0, i as int), name@),
        decreases i,
    {
        let ghost pre = revisions@.subrange(0, i as int);
        assert(pre.drop_last() =~= revisions@.subrange(0, i - 1));
        assert(pre.last() == revisions@[i - 1]);
        if str_eq(revisions[i - 1].0.as_str(), name) {
            return match &revisions[i - 1].1 {
                Some(r) => Some(Revision { tree: r.tree.clone(), version: r.version.clone() }),
                None => None,
            };
        }
        i = i - 1;
    }
    None
}

fn upstream_of(
    branches: &Vec<BranchRow>,
    remotes: &Vec<RemoteRow>,
    tracking: &Vec<Row>,
    e: &str,
) -> (r: Option<UpstreamConfiguration>)
    ensures
        r == upstream_for(branches@, remotes@, tracking@, e@),
{
    let u = crate::roster::find_last_row(tracking, e);
    match u {
        None => None,
        Some(u) => match find_branch(branches, u.as_str()) {
            None => None,
            Some(bi) => match find_remote(remotes, branches[bi].origin.as_str()) {
                None => None,
                Some(ri) => Some(UpstreamConfiguration { remote: remotes[ri].name.clone(), branch: branches[bi].name.clone() }),
            },
        },
    }
}

/// The branch map the repository endpoint reports: each local branch of
/// `replica` (remote entities among the rows skipped), by name, with the
/// upstream its tracking link resolves to and the revision recorded for
/// it (`revisions`, by branch name, as opening each branch gave).
pub fn assemble_branches(
    branches: &Vec<BranchRow>,
    remotes: &Vec<RemoteRow>,
    tracking: &Vec<Row>,
    revisions: &Vec<(String, Option<Revision>)>,
    replica: &str,
) -> (r: NamedMap<BranchConfiguration>)
    ensures
        r.wf(),
        r.as_map() == branch_map(branches@, branches@, remotes@, tracking@, revisions@, replica@),
{
    let mut out: NamedMap<BranchConfiguration> = NamedMap::new();
    let mut i: usize = 0;
    while i < branches.len()
        invariant
            i <= branches.len(),
            out.wf(),
            out.as_map() == branch_map(branches@.subrange(0, i as int), branches@, remotes@, tracking@, revisions@, replica@),
        decreases branches.len() - i,
    {
        let ghost pre = branches@.subrange(0, i + 1);
        assert(pre.drop_last() =~= branches@.subrange(0, i as int));
        assert(pre.last() == branches@[i as int]);
        let b = &branches[i];
        if str_eq(b.origin.as_str(), replica) && find_remote(remotes, b.entity.as_str()).is_none() {
            let upstream = upstream_of(branches, remotes, tracking, b.entity.as_str());
            let revision = find_revision(revisions, b.name.as_str());
            out.insert(b.name.clone(), BranchConfiguration { upstream, revision });
        }
        i = i + 1;
    }
    assert(branches@.subrange(0, branches.len() as int) =~= branches@);
    out
}

/// The serialization `url::Url::parse` gives a text, when it parses.
pub uninterp spec fn url_serialization(text: Seq<char>) -> Option<Seq<char>>;

/// `url::Url::parse(text)`, serialized back with `Url::to_string`.
#[verifier::external_body]
fn parse_url(text: &str) -> (r: Option<String>)
    ensures
        match r {
            Some(u) => url_serialization(text@) == Some(u@),
            None => url_serialization(text@) is None,
        },
{
    match url::Url::parse(text) {
        Ok(u) => Some(u.to_string()),
        Err(_) => None,
    }
}

/// The revocation relay recorded for remote `e`: the last execution row
/// for it whose URL parses, as parsed.
pub open spec fn relay_for(executions: Seq<Row>, e: Seq<char>) -> Option<Seq<char>>
    decreases executions.len(),
{
    if executions.len() == 0 {
        None
    } else if executions.last().0@ == e && url_serialization(executions.last().1@) is Some {
        url_serialization(executions.last().1@)
    } else {
        relay_for(executions.drop_last(), e)
    }
}

fn find_relay(executions: &Vec<Row>, e: &str) -> (r: Option<String>)
    ensures
        match r {
            Some(u) => relay_for(executions@, e@) == Some(u@),
            None => relay_for(executions@, e@) is None,
        },
{
    let mut i = executions.len();
    assert(executions@.subrange(0, i as int) =~= executions@);
    while i > 0
        invariant
            i <= executions.len(),
            relay_for(executions@, e@) == relay_for(executions@.subrange(0, i as int), e@),
        decreases i,
    {
        let ghost pre = executions@.subrange(0, i as int);
        assert(pre.drop_last() =~= executions@.subrange(0, i - 1));
        assert(pre.last() == executions@[i - 1]);
        if str_eq(executions[i - 1].0.as_str(), e) {
            let parsed = parse_url(executions[i - 1].1.as_str());
            if parsed.is_some() {
                return parsed;
            }
        }
        i = i - 1;
    }
    None
}

/// A remote's configuration by its texts: address, subject override and
/// relay.
pub open spec fn remote_view(r: RemoteConfiguration) -> (Seq<char>, Option<Seq<char>>, Option<Seq<char>>) {
    (
        r.address@,
        match r.subject {
            Some(s) => Some(s@),
            None => None,
        },
        match r.revocation_url {
            Some(u) => Some(u@),
            None => None,
        },
    )
}

/// The configuration a remote row reports: its decoded address, its
/// subject only where it differs from the repository's own DID, and its
/// relay.
pub open spec fn remote_entry(r: RemoteRow, executions: Seq<Row>, subject: Seq<char>) -> (Seq<char>, Option<Seq<char>>, Option<Seq<char>>) {
    (
        r.address->0@,
        match r.subject {
            Some(s) => if s@ != subject {
                Some(s@)
            } else {
                None
            },
            None => None,
        },
        relay_for(executions, r.entity@),
    )
}

/// The remote map: every row whose address decoded, by name; a later row
/// of the same name replaces an earlier one.
pub open spec fn remote_map(rows: Seq<RemoteRow>, executions: Seq<Row>, subject: Seq<char>) -> Map<Seq<char>, (Seq<char>, Option<Seq<char>>, Option<Seq<char>>)>
    decreases rows.len(),
{
    if rows.len() == 0 {
        Map::empty()
    } else {
        let m = remote_map(rows.drop_last(), executions, subject);
        let r = rows.last();
        if r.address is Some {
            m.insert(r.name@, remote_entry(r, executions, subject))
        } else {
            m
        }
    }
}

/// The remote map the repository endpoint reports, for the repository
/// whose DID is `subject`.
pub fn assemble_remotes(remotes: &Vec<RemoteRow>, executions: &Vec<Row>, subject: &str) -> (r: NamedMap<RemoteConfiguration>)
    ensures
        r.wf(),
        r.as_map().map_values(|c: RemoteConfiguration| remote_view(c)) == remote_map(remotes@, executions@, subject@),
{
    let mut out: NamedMap<RemoteConfiguration> = NamedMap::new();
    let mut i: usize = 0;
    while i < remotes.len()
        invariant
            i <= remotes.len(),
            out.wf(),
            out.as_map().map_values(|c: RemoteConfiguration| remote_view(c)) == remote_map(remotes@.subrange(0, i as int), executions@, subject@),
        decreases remotes.len() - i,
    {
        let ghost pre = remotes@.subrange(0, i + 1);
        assert(pre.drop_last() =~= remotes@.subrange(0, i as int));
        assert(pre.last() == remotes@[i as int]);
        let row = &remotes[i];
        match &row.address {
            Some(address) => {
                let subject_override = match &row.subject {
                    Some(s) => if str_eq(s.as_str(), subject) {
                        None
                    } else {
                        Some(s.clone())
                    },
                    None => None,
                };
                let config = RemoteConfiguration {
                    address: address.clone(),
                    subject: subject_override,
                    revocation_url: find_relay(executions, row.entity.as_str()),
                };
                let ghost before = out.as_map();
                out.insert(row.name.clone(), config);
                proof {
                    assert(out.as_map().map_values(|c: RemoteConfiguration| remote_view(c)) =~= before.map_values(
                        |c: RemoteConfiguration| remote_view(c),
                    ).insert(row.name@, remote_view(config)));
                }
            },
            None => {},
        }
        i = i + 1;
    }
    assert(remotes@.subrange(0, remotes.len() as int) =~= remotes@);
    out
}

/// What the repository endpoint reports.
#[derive(Clone, Debug)]
pub struct RepositoryInfo {
    /// The routing key the repository was loaded under.
    pub name: String,
    /// The display label: the repository's own name, else the key.
    pub label: String,
    /// The repository's subject DID.
    pub subject: String,
    /// The operator's DID.
    pub operator: String,
    /// The profile's DID.
    pub profile: String,
    /// Local branches, by name.
    pub branch: NamedMap<BranchConfiguration>,
    /// Remotes, by name.
    pub remote: NamedMap<RemoteConfiguration>,
    /// Members, ordered self first, then named alphabetically.
    pub members: Vec<crate::roster::MemberInfo>,
}

/// The report for a repository whose meta branch cannot be opened: the
/// key stands for the label, and no branch, remote or member is known.
pub fn bare_repository_info(key: &str, subject: String, operator: String, profile: String) -> (r: RepositoryInfo)
    ensures
        r.name@ == key@,
        r.label@ == key@,
        r.subject == subject,
        r.operator == operator,
        r.profile == profile,
        r.branch.wf() && r.branch.as_map().is_empty(),
        r.remote.wf() && r.remote.as_map().is_empty(),
        r.members@.len() == 0,
{
    RepositoryInfo {
        name: String::from_str(key),
        label: String::from_str(key),
        subject,
        operator,
        profile,
        branch: NamedMap::new(),
        remote: NamedMap::new(),
        members: Vec::new(),
    }
}

/// The report for a repository whose meta branch opened: the key it was
/// loaded under, labelled by the repository's own recorded name when it
/// has one (else the key), with its branches, remotes and members as
/// assembled.
pub fn repository_info(
    key: &str,
    repository_name: Option<String>,
    subject: String,
    operator: String,
    profile: String,
    branch: NamedMap<BranchConfiguration>,
    remote: NamedMap<RemoteConfiguration>,
    members: Vec<crate::roster::MemberInfo>,
) -> (r: RepositoryInfo)
    ensures
        r.name@ == key@,
        r.label@ == (match repository_name {
            Some(n) => n@,
            None => key@,
        }),
        r.subject == subject,
        r.operator == operator,
        r.profile == profile,
        r.branch == branch,
        r.remote == remote,
        r.members == members,
{
    RepositoryInfo {
        name: String::from_str(key),
        label: crate::attach::space_label(repository_name, key),
        subject,
        operator,
        profile,
        branch,
        remote,
        members,
    }
}

} // verus!
