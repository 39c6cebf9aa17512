//! Repository configuration: the remotes and branches a repository is
//! created or re-wired with, and the branch selection a sync sweep uses.

use vstd::prelude::*;
use crate::named::{NamedMap, name_map, names, distinct_names, lemma_name_lookup};
use crate::text::{chars_le, chars_of, lex_le, lemma_lex_total, lemma_lex_trans, string_of, trim_bounds, trimmed};
use crate::labels::views;

verus! {

/// A branch's revision: its tree hash and the version it was committed at.
#[derive(Clone, Debug, PartialEq, Eq)]
pub struct Revision {
    /// The content tree hash.
    pub tree: String,
    /// The version the revision names.
    pub version: String,
}

/// Upstream wiring for a branch, pointing at a remote branch.
#[derive(Clone, Debug)]
pub struct UpstreamConfiguration {
    /// The remote's local name (e.g. `origin`).
    pub remote: String,
    /// The branch name on that remote.
    pub branch: String,
}

impl UpstreamConfiguration {
    /// An upstream pointing at `{remote}/{branch}`.
    pub fn new(remote: String, branch: String) -> (u: Self)
        ensures
            u.remote == remote,
            u.branch == branch,
    {
        UpstreamConfiguration { remote, branch }
    }
}

/// Configuration / state of one branch.
#[derive(Clone, Debug)]
pub struct BranchConfiguration {
    /// Upstream wiring, if the branch tracks one.
    pub upstream: Option<UpstreamConfiguration>,
    /// The branch's current revision, if it has commits.
    pub revision: Option<Revision>,
}

impl BranchConfiguration {
    /// A branch with no upstream and no revision.
    pub fn new() -> (b: Self)
        ensures
            b.upstream is None,
            b.revision is None,
    {
        BranchConfiguration { upstream: None, revision: None }
    }

    /// Attach an upstream pointing at `{remote}/{branch}`.
    pub fn upstream(self, remote: String, branch: String) -> (b: Self)
        ensures
            b.upstream == Some(UpstreamConfiguration { remote, branch }),
            b.revision == self.revision,
    {
        BranchConfiguration { upstream: Some(UpstreamConfiguration::new(remote, branch)), revision: self.revision }
    }
}

impl Default for BranchConfiguration {
    fn default() -> (b: Self)
        ensures
            b.upstream is None,
            b.revision is None,
    {
        BranchConfiguration::new()
    }
}

/// Configuration of one remote.
#[derive(Clone, Debug)]
pub struct RemoteConfiguration {
    /// The remote's UCAN access-service endpoint.
    pub address: String,
    /// The remote repository's subject DID; the local repository's own
    /// DID when absent.
    pub subject: Option<String>,
    /// Explicit relay for invitation revocations.
    pub revocation_url: Option<String>,
}

impl RemoteConfiguration {
    /// A remote at `address`, with the default subject and no relay.
    pub fn new(address: String) -> (r: Self)
        ensures
            r.address == address,
            r.subject is None,
            r.revocation_url is None,
    {
        RemoteConfiguration { address, subject: None, revocation_url: None }
    }

    /// Override the subject DID.
    pub fn subject(self, subject: String) -> (r: Self)
        ensures
            r.address == self.address,
            r.subject == Some(subject),
            r.revocation_url == self.revocation_url,
    {
        RemoteConfiguration { address: self.address, subject: Some(subject), revocation_url: self.revocation_url }
    }

    /// Attach the revocation relay.
    pub fn revocation_url(self, revocation_url: String) -> (r: Self)
        ensures
            r.address == self.address,
            r.subject == self.subject,
            r.revocation_url == Some(revocation_url),
    {
        RemoteConfiguration { address: self.address, subject: self.subject, revocation_url: Some(revocation_url) }
    }
}

/// Remotes and branches to create or wire, keyed by name.
#[derive(Clone, Debug)]
pub struct RepositoryConfiguration {
    /// Remotes, keyed by local name.
    pub remote: NamedMap<RemoteConfiguration>,
    /// Branches, keyed by branch name.
    pub branch: NamedMap<BranchConfiguration>,
}

impl RepositoryConfiguration {
    /// Both tables are well formed.
    pub open spec fn wf(&self) -> bool {
        self.remote.wf() && self.branch.wf()
    }

    /// No remotes and no branches.
    pub fn new() -> (c: Self)
        ensures
            c.wf(),
            c.remote.as_map() == Map::<Seq<char>, RemoteConfiguration>::empty(),
            c.branch.as_map() == Map::<Seq<char>, BranchConfiguration>::empty(),
    {
        RepositoryConfiguration { remote: NamedMap::new(), branch: NamedMap::new() }
    }

    /// Add (or replace) a remote entry.
    pub fn remote(self, name: String, config: RemoteConfiguration) -> (c: Self)
        requires
            self.wf(),
        ensures
            c.wf(),
            c.remote.as_map() == self.remote.as_map().insert(name@, config),
            c.branch == self.branch,
    {
        let mut c = self;
        c.remote.insert(name, config);
        c
    }

    /// Add (or replace) a branch entry.
    pub fn branch(self, name: String, config: BranchConfiguration) -> (c: Self)
        requires
            self.wf(),
        ensures
            c.wf(),
            c.branch.as_map() == self.branch.as_map().insert(name@, config),
            c.remote == self.remote,
    {
        let mut c = self;
        c.branch.insert(name, config);
        c
    }
}

impl Default for RepositoryConfiguration {
    fn default() -> (c: Self)
        ensures
            c.wf(),
            c.remote.as_map() == Map::<Seq<char>, RemoteConfiguration>::empty(),
            c.branch.as_map() == Map::<Seq<char>, BranchConfiguration>::empty(),
    {
        RepositoryConfiguration::new()
    }
}

/// `main`.
pub open spec fn main_name() -> Seq<char> {
    seq!['m', 'a', 'i', 'n']
}

/// `origin`.
pub open spec fn origin_name() -> Seq<char> {
    seq!['o', 'r', 'i', 'g', 'i', 'n']
}

fn main_string() -> (s: String)
    ensures
        s@ == main_name(),
{
    let v = vec!['m', 'a', 'i', 'n'];
    assert(v@ =~= main_name());
    string_of(&v, 0, 4)
}

fn origin_string() -> (s: String)
    ensures
        s@ == origin_name(),
{
    let v = vec!['o', 'r', 'i', 'g', 'i', 'n'];
    assert(v@ =~= origin_name());
    string_of(&v, 0, 6)
}

/// A configuration with only a local `main` branch: no remote, and `main`
/// tracks nothing and pins no revision.
pub open spec fn local_only(c: RepositoryConfiguration) -> bool {
    &&& c.remote.as_map().dom().len() == 0
    &&& c.branch.as_map().dom() == set![main_name()]
    &&& c.branch.as_map()[main_name()].upstream is None
    &&& c.branch.as_map()[main_name()].revision is None
}

/// A configuration wired to `address`: its one remote is `origin` at that
/// address, with no subject and no revocation endpoint, and its one branch
/// `main` tracks `origin/main` and pins no revision.
pub open spec fn wired_to(c: RepositoryConfiguration, address: Seq<char>) -> bool {
    &&& c.remote.as_map().dom() == set![origin_name()]
    &&& c.remote.as_map()[origin_name()].address@ == address
    &&& c.remote.as_map()[origin_name()].subject is None
    &&& c.remote.as_map()[origin_name()].revocation_url is None
    &&& c.branch.as_map().dom() == set![main_name()]
    &&& c.branch.as_map()[main_name()].upstream matches Some(u) && u.remote@ == origin_name() && u.branch@
        == main_name()
    &&& c.branch.as_map()[main_name()].revision is None
}

/// The configuration of a space with a single `main` branch: local-only
/// when `remote` is blank, else wired to `remote` as `origin` with `main`
/// tracking `origin/main`. The endpoint is taken trimmed.
pub fn space_config(remote: &str) -> (r: Result<RepositoryConfiguration, crate::errors::RepositoryError>)
    ensures
        r matches Ok(c) && c.wf() && (if trimmed(remote@).len() == 0 {
            local_only(c)
        } else {
            wired_to(c, trimmed(remote@))
        }),
{
    let chars = chars_of(remote);
    let (i, j) = trim_bounds(&chars);
    let empty = RepositoryConfiguration::new();
    if i == j {
        let c = empty.branch(main_string(), BranchConfiguration::new());
        proof {
            assert(c.branch.as_map().dom() =~= set![main_name()]);
            assert(c.remote.as_map().dom() =~= Set::<Seq<char>>::empty());
        }
        Ok(c)
    } else {
        let address = string_of(&chars, i, j);
        let c = empty.remote(origin_string(), RemoteConfiguration::new(address)).branch(
            main_string(),
            BranchConfiguration::new().upstream(origin_string(), main_string()),
        );
        proof {
            assert(c.branch.as_map().dom() =~= set![main_name()]);
            assert(c.remote.as_map().dom() =~= set![origin_name()]);
        }
        Ok(c)
    }
}

/// The names of the entries of `s` that have an upstream, in entry order.
pub open spec fn upstream_names(s: Seq<(String, BranchConfiguration)>) -> Seq<Seq<char>>
    decreases s.len(),
{
    if s.len() == 0 {
        Seq::empty()
    } else if s.last().1.upstream is Some {
        upstream_names(s.drop_last()).push(s.last().0@)
    } else {
        upstream_names(s.drop_last())
    }
}

proof fn lemma_upstream_names(s: Seq<(String, BranchConfiguration)>)
    requires
        distinct_names(s),
    ensures
        upstream_names(s).no_duplicates(),
        forall|k: Seq<char>|
            #![trigger upstream_names(s).contains(k)]
            #![trigger name_map(s).contains_key(k)]
            upstream_names(s).contains(k) <==> (name_map(s).contains_key(k) && name_map(s)[k].upstream is Some),
    decreases s.len(),
{
    if s.len() == 0 {
        assert(upstream_names(s) =~= Seq::<Seq<char>>::empty());
        return;
    }
    let t = s.drop_last();
    let last = s.len() - 1;
    assert(distinct_names(t)) by {
        assert forall|a: int, b: int| 0 <= a < t.len() && 0 <= b < t.len() && a != b implies (#[trigger] t[a]).0@ != (#[trigger] t[b]).0@ by {
            assert(t[a] == s[a]);
            assert(t[b] == s[b]);
        }
    }
    lemma_upstream_names(t);
    let ut = upstream_names(t);
    let us = upstream_names(s);
    lemma_name_lookup(s, last);
    assert forall|k: Seq<char>|
        #![trigger us.contains(k)]
        #![trigger name_map(s).contains_key(k)]
        us.contains(k) <==> (name_map(s).contains_key(k) && name_map(s)[k].upstream is Some) by {
        if us.contains(k) {
        if ut.contains(k) {
            assert(name_map(t).contains_key(k));
            let a = choose|a: int| 0 <= a < t.len() && (#[trigger] t[a]).0@ == k;
            assert(t[a] == s[a]);
            lemma_name_lookup(t, a);
            lemma_name_lookup(s, a);
        } else {
            let j = choose|j: int| 0 <= j < us.len() && us[j] == k;
            if s.last().1.upstream is Some {
                assert(us == ut.push(s.last().0@));
                if j < ut.len() {
                    assert(ut[j] == k);
                    assert(ut.contains(k));
                }
            } else {
                assert(us == ut);
                assert(ut.contains(k));
            }
        }
        }
        if name_map(s).contains_key(k) && name_map(s)[k].upstream is Some {
        let a = choose|a: int| 0 <= a < s.len() && (#[trigger] s[a]).0@ == k;
        lemma_name_lookup(s, a);
        if a == last {
            assert(us == ut.push(k));
            assert(us[us.len() - 1] == k);
        } else {
            assert(t[a] == s[a]);
            lemma_name_lookup(t, a);
            assert(ut.contains(k));
            let j = choose|j: int| 0 <= j < ut.len() && ut[j] == k;
            if s.last().1.upstream is Some {
                assert(us == ut.push(s.last().0@));
                assert(us[j] == k);
            } else {
                assert(us == ut);
            }
        }
        }
    }
    if s.last().1.upstream is Some {
        let x = s.last().0@;
        assert(!ut.contains(x)) by {
            if ut.contains(x) {
                assert(name_map(t).contains_key(x));
                let a = choose|a: int| 0 <= a < t.len() && (#[trigger] t[a]).0@ == x;
                assert(t[a] == s[a]);
            }
        }
        assert(us == ut.push(x));
        assert forall|i: int, j: int| 0 <= i < us.len() && 0 <= j < us.len() && i != j implies us[i] != us[j] by {
            if i < ut.len() && j < ut.len() {
            } else if i < ut.len() {
                assert(ut.contains(us[i]));
            } else {
                assert(ut.contains(us[j]));
            }
        }
    }
}

/// `out` lists the names in `branches` that have an upstream, each once,
/// in ascending order.
pub open spec fn is_sync_selection(out: Seq<Seq<char>>, branches: Map<Seq<char>, BranchConfiguration>) -> bool {
    &&& forall|k: Seq<char>| out.contains(k) <==> (#[trigger] branches.contains_key(k) && branches[k].upstream is Some)
    &&& forall|i: int, j: int| 0 <= i < j < out.len() ==> lex_le(#[trigger] out[i], #[trigger] out[j]) && out[i] != out[j]
}

/// Branch names that have an upstream, sorted for a stable sweep order.
/// Branches without an upstream have nowhere to sync to.
pub fn branches_to_sync(branches: &NamedMap<BranchConfiguration>) -> (out: Vec<String>)
    requires
        branches.wf(),
    ensures
        is_sync_selection(views(out@), branches.as_map()),
{
    let n = branches.len();
    let ghost s = branches.entries();
    let mut selected: Vec<String> = Vec::new();
    let mut i: usize = 0;
    while i < n
        invariant
            n == s.len(),
            s == branches.entries(),
            i <= n,
            views(selected@) == upstream_names(s.subrange(0, i as int)),
        decreases n - i,
    {
        assert(s.subrange(0, i + 1).drop_last() =~= s.subrange(0, i as int));
        if branches.value_at(i).upstream.is_some() {
            selected.push(branches.name_at(i).clone());
        }
        i = i + 1;
        assert(views(selected@) =~= upstream_names(s.subrange(0, i as int)));
    }
    proof {
        assert(s.subrange(0, n as int) =~= s);
        lemma_upstream_names(s);
    }
    sort_names(selected)
}

/// Sort duplicate-free names into ascending order.
pub fn sort_names(v: Vec<String>) -> (out: Vec<String>)
    requires
        views(v@).no_duplicates(),
    ensures
        forall|k: Seq<char>| views(out@).contains(k) <==> views(v@).contains(k),
        out.len() == v.len(),
        forall|i: int, j: int| 0 <= i < j < out.len() ==> lex_le(#[trigger] views(out@)[i], #[trigger] views(out@)[j]) && views(out@)[i] != views(out@)[j],
{
    let mut out: Vec<String> = Vec::new();
    let mut i: usize = 0;
    while i < v.len()
        invariant
            i <= v.len(),
            views(v@).no_duplicates(),
            out.len() == i,
            forall|a: int| 0 <= a < out.len() ==> exists|b: int| 0 <= b < i && v@[b] == #[trigger] out@[a],
            forall|b: int| 0 <= b < i ==> exists|a: int| 0 <= a < out.len() && out@[a] == #[trigger] v@[b],
            forall|a: int, b: int| 0 <= a < b < out.len() ==> lex_le((#[trigger] out@[a])@, (#[trigger] out@[b])@) && out@[a]@ != out@[b]@,
        decreases v.len() - i,
    {
        let name = v[i].clone();
        let ghost prev = out@;
        proof {
            assert forall|a: int| 0 <= a < out.len() implies (#[trigger] out@[a])@ != name@ by {
                let b = choose|b: int| 0 <= b < i && v@[b] == out@[a];
                assert(views(v@)[b] == v@[b]@);
                assert(views(v@)[i as int] == v@[i as int]@);
            }
        }
        insert_sorted(&mut out, name);
        proof {
            assert forall|a: int| 0 <= a < out.len() implies exists|b: int| 0 <= b < i + 1 && v@[b] == #[trigger] out@[a] by {
                if out@[a] == v@[i as int] {
                } else {
                    let a2 = choose|a2: int| 0 <= a2 < prev.len() && prev[a2] == out@[a];
                    let b = choose|b: int| 0 <= b < i && v@[b] == #[trigger] prev[a2];
                }
            }
            assert forall|b: int| 0 <= b < i + 1 implies exists|a: int| 0 <= a < out.len() && out@[a] == #[trigger] v@[b] by {
                if b < i {
                    let a2 = choose|a2: int| 0 <= a2 < prev.len() && prev[a2] == v@[b];
                    assert(exists|a: int| 0 <= a < out.len() && out@[a] == #[trigger] prev[a2]);
                }
            }
        }
        i = i + 1;
    }
    proof {
        assert forall|k: Seq<char>| views(out@).contains(k) <==> views(v@).contains(k) by {
            if views(out@).contains(k) {
                let a = choose|a: int| 0 <= a < out.len() && views(out@)[a] == k;
                assert(views(out@)[a] == out@[a]@);
                let b = choose|b: int| 0 <= b < v.len() && v@[b] == #[trigger] out@[a];
                assert(views(v@)[b] == k);
            }
            if views(v@).contains(k) {
                let b = choose|b: int| 0 <= b < v.len() && views(v@)[b] == k;
                assert(views(v@)[b] == v@[b]@);
                let a = choose|a: int| 0 <= a < out.len() && out@[a] == #[trigger] v@[b];
                assert(views(out@)[a] == k);
            }
        }
        assert forall|a: int, b: int| 0 <= a < b < out.len() implies lex_le(#[trigger] views(out@)[a], #[trigger] views(out@)[b]) && views(out@)[a] != views(out@)[b] by {
            assert(views(out@)[a] == out@[a]@);
            assert(views(out@)[b] == out@[b]@);
        }
    }
    out
}

/// Insert `name` into an ascending, duplicate-free list, keeping it so.
fn insert_sorted(out: &mut Vec<String>, name: String)
    requires
        forall|a: int, b: int| 0 <= a < b < old(out).len() ==> lex_le((#[trigger] old(out)@[a])@, (#[trigger] old(out)@[b])@) && old(out)@[a]@ != old(out)@[b]@,
        forall|a: int| 0 <= a < old(out).len() ==> (#[trigger] old(out)@[a])@ != name@,
    ensures
        forall|a: int, b: int| 0 <= a < b < final(out).len() ==> lex_le((#[trigger] final(out)@[a])@, (#[trigger] final(out)@[b])@) && final(out)@[a]@ != final(out)@[b]@,
        final(out).len() == old(out).len() + 1,
        forall|a: int| 0 <= a < old(out).len() ==> exists|b: int| 0 <= b < final(out).len() && final(out)@[b] == #[trigger] old(out)@[a],
        exists|b: int| 0 <= b < final(out).len() && final(out)@[b] == name,
        forall|b: int| 0 <= b < final(out).len() ==> (#[trigger] final(out)@[b]) == name || exists|a: int| 0 <= a < old(out).len() && old(out)@[a] == final(out)@[b],
{
    let key = chars_of(name.as_str());
    let mut p: usize = 0;
    while p < out.len() && chars_le(&chars_of(out[p].as_str()), &key)
        invariant
            p <= out.len(),
            key@ == name@,
            forall|a: int| 0 <= a < p ==> lex_le((#[trigger] out@[a])@, name@),
        decreases out.len() - p,
    {
        p = p + 1;
    }
    let ghost before = out@;
    proof {
        if p < before.len() {
            assert(!lex_le(before[p as int]@, name@));
            lemma_lex_total(before[p as int]@, name@);
        }
    }
    out.insert(p, name);
    proof {
        let t = out@;
        assert forall|a: int, b: int| 0 <= a < b < t.len() implies lex_le((#[trigger] t[a])@, (#[trigger] t[b])@) && t[a]@ != t[b]@ by {
            if b < p {
                assert(t[a] == before[a] && t[b] == before[b]);
            } else if b == p {
                assert(t[a] == before[a]);
            } else if a == p {
                assert(t[b] == before[b - 1]);
                if b - 1 > p {
                    lemma_lex_trans(name@, before[p as int]@, before[b - 1]@);
                }
            } else if a < p {
                assert(t[a] == before[a] && t[b] == before[b - 1]);
            } else {
                assert(t[a] == before[a - 1] && t[b] == before[b - 1]);
            }
        }
        assert forall|a: int| 0 <= a < before.len() implies exists|b: int| 0 <= b < t.len() && t[b] == #[trigger] before[a] by {
            if a < p {
                assert(t[a] == before[a]);
            } else {
                assert(t[a + 1] == before[a]);
            }
        }
        assert(t[p as int] == name);
        assert forall|b: int| 0 <= b < t.len() implies (#[trigger] t[b]) == name || exists|a: int| 0 <= a < before.len() && before[a] == t[b] by {
            if b < p {
                assert(t[b] == before[b]);
            } else if b > p {
                assert(t[b] == before[b - 1]);
            }
        }
    }
}

} // verus!
