//! Per-tab site registration: the `site:<client-id>` entity a browser
//! client renders against, what the worker remembers of each client, and
//! how a captured route param is stamped on the site.

use vstd::prelude::*;
use crate::errors::TonkWorkerError;
use crate::text::str_eq;

verus! {

/// `POST /api/site` response: the site entity the client should render
/// against.
#[derive(Clone, Debug)]
pub struct SiteResponse {
    /// The site entity URI (`site:<client-id>`).
    pub site: String,
}

/// The site entity keyed by a client id.
pub open spec fn site_of(client_id: Seq<char>) -> Seq<char> {
    "site:"@ + client_id
}

/// The site the client of `POST /api/site` renders against; a request the
/// service worker tagged with no client id is refused.
pub fn register_site(client_id: &str) -> (r: Result<SiteResponse, TonkWorkerError>)
    ensures
        client_id@.len() == 0 ==> (r matches Err(TonkWorkerError::Router(m)) && m@ == "no client id on /api/site"@),
        client_id@.len() > 0 ==> (r matches Ok(s) && s.site@ == site_of(client_id@)),
{
    if client_id.unicode_len() == 0 {
        return Err(TonkWorkerError::Router(String::from_str("no client id on /api/site")));
    }
    let mut site = String::from_str("site:");
    site.append(client_id);
    Ok(SiteResponse { site })
}

/// The `site:<client-id>` entity of a per-branch `/site` request, with
/// the client id it is keyed by; a request with no client id is refused.
pub fn client_site(client_id: &str) -> (r: Result<(String, String), TonkWorkerError>)
    ensures
        client_id@.len() == 0 ==> (r matches Err(TonkWorkerError::Router(m)) && m@ == "no client id on /site"@),
        client_id@.len() > 0 ==> (r matches Ok((s, c)) && s@ == site_of(client_id@) && c@ == client_id@),
{
    if client_id.unicode_len() == 0 {
        return Err(TonkWorkerError::Router(String::from_str("no client id on /site")));
    }
    let mut site = String::from_str("site:");
    site.append(client_id);
    Ok((site, String::from_str(client_id)))
}

/// What one service-worker client has registered with the worker, plus
/// whether it was ever observed alive: only a client seen alive and then
/// gone may be reaped, since a booting page is legitimately absent.
#[derive(Clone, Debug)]
pub struct ClientState {
    /// Site entities this client has stamped, each once.
    pub sites: Vec<String>,
    /// Latched once this client appeared among the live clients.
    pub seen_live: bool,
    /// The active-profile generation this document first reached a
    /// profile-scoped route under; fixed once set.
    pub context_generation: Option<u64>,
}

impl Default for ClientState {
    fn default() -> (c: Self)
        ensures
            c.sites@.len() == 0,
            !c.seen_live,
            c.context_generation is None,
    {
        ClientState { sites: Vec::new(), seen_live: false, context_generation: None }
    }
}

/// The generation a client is bound to after it reaches a profile-scoped
/// route under `generation`: the first binding sticks.
pub open spec fn bound_generation(current: Option<u64>, generation: u64) -> Option<u64> {
    match current {
        Some(bound) => Some(bound),
        None => Some(generation),
    }
}

/// A document's profile generation never changes once bound: binding again,
/// under any generation, keeps the first.
pub proof fn law_first_binding_sticks(current: Option<u64>, first: u64, later: u64)
    ensures
        bound_generation(bound_generation(current, first), later) == bound_generation(current, first),
{
}

/// The site set of a client, as a set of texts.
pub open spec fn site_set(sites: Seq<String>) -> Set<Seq<char>> {
    Set::new(|t: Seq<char>| exists|i: int| 0 <= i < sites.len() && (#[trigger] sites[i])@ == t)
}

impl ClientState {
    /// No site is recorded twice.
    pub open spec fn wf(&self) -> bool {
        forall|i: int, j: int| 0 <= i < j < self.sites@.len() ==> (#[trigger] self.sites@[i])@ != (#[trigger] self.sites@[j])@
    }

    /// Bind this client to the current profile generation, or report that
    /// it was bound under an earlier one: a first visit binds and passes; a
    /// later one passes only under the generation it was bound to.
    pub fn bind_context(&mut self, generation: u64) -> (current: bool)
        ensures
            current == (match old(self).context_generation {
                Some(bound) => bound == generation,
                None => true,
            }),
            final(self).context_generation == bound_generation(old(self).context_generation, generation),
            final(self).sites == old(self).sites,
            final(self).seen_live == old(self).seen_live,
    {
        match self.context_generation {
            Some(bound) => bound == generation,
            None => {
                self.context_generation = Some(generation);
                true
            },
        }
    }

    /// Record that this client stamped `site`.
    pub fn record_site(&mut self, site: String)
        requires
            old(self).wf(),
        ensures
            final(self).wf(),
            site_set(final(self).sites@) == site_set(old(self).sites@).insert(site@),
            final(self).seen_live == old(self).seen_live,
            final(self).context_generation == old(self).context_generation,
    {
        let mut i: usize = 0;
        while i < self.sites.len()
            invariant
                i <= self.sites@.len(),
                self.wf(),
                *self == *old(self),
                forall|k: int| 0 <= k < i ==> (#[trigger] self.sites@[k])@ != site@,
            decreases self.sites@.len() - i,
        {
            if str_eq(self.sites[i].as_str(), site.as_str()) {
                proof {
                    let s = self.sites@;
                    assert(site_set(s).insert(site@) =~= site_set(s)) by {
                        assert(s[i as int]@ == site@);
                    }
                }
                return;
            }
            i = i + 1;
        }
        let ghost before = self.sites@;
        self.sites.push(site);
        proof {
            let t = self.sites@;
            assert(site_set(t) =~= site_set(before).insert(site@)) by {
                assert forall|x: Seq<char>| site_set(t).contains(x) implies site_set(before).insert(site@).contains(x) by {
                    let k = choose|k: int| 0 <= k < t.len() && (#[trigger] t[k])@ == x;
                    if k < before.len() {
                        assert(t[k] == before[k]);
                    }
                }
                assert forall|x: Seq<char>| site_set(before).insert(site@).contains(x) implies site_set(t).contains(x) by {
                    if x == site@ {
                        assert(t[before.len() as int]@ == x);
                    } else {
                        let k = choose|k: int| 0 <= k < before.len() && (#[trigger] before[k])@ == x;
                        assert(t[k] == before[k]);
                    }
                }
            }
            assert forall|a: int, b: int| 0 <= a < b < t.len() implies (#[trigger] t[a])@ != (#[trigger] t[b])@ by {
                if b < before.len() {
                    assert(t[a] == before[a] && t[b] == before[b]);
                } else {
                    assert(t[a] == before[a]);
                }
            }
        }
    }

    /// Latch that this client was observed alive.
    pub fn mark_seen_live(&mut self)
        ensures
            final(self).seen_live,
            final(self).sites == old(self).sites,
            final(self).context_generation == old(self).context_generation,
    {
        self.seen_live = true;
    }

    /// Whether this client may be reaped given whether it is among the live
    /// clients now: only one that was born and has since died.
    pub fn is_stale(&self, alive: bool) -> (b: bool)
        ensures
            b == (self.seen_live && !alive),
    {
        self.seen_live && !alive
    }
}

/// Body of a per-branch `POST .../site`: the path to record and route, and
/// the active anchor (URL hash).
#[derive(Clone, Debug)]
pub struct SiteRequest {
    /// The path to record on the site and match against the branch's
    /// route table.
    pub path: String,
    /// The active anchor, if any (empty when none).
    pub anchor: String,
}

impl Default for SiteRequest {
    fn default() -> (r: Self)
        ensures
            r.path@.len() == 0,
            r.anchor@.len() == 0,
    {
        SiteRequest { path: String::new(), anchor: String::new() }
    }
}

/// How a captured route param's value is stamped.
#[derive(Clone, Debug)]
pub enum SiteParamValue {
    /// As an entity reference (to be parsed as an entity URI).
    Entity(String),
    /// As text.
    Text(String),
}

/// A captured route param stamped on a site: the attribute and the typed
/// value.
#[derive(Clone, Debug)]
pub struct SiteParam {
    /// `xyz.tonk.site/{name}`.
    pub attribute: String,
    /// The value, typed by the param's name.
    pub value: SiteParamValue,
}

/// The attribute a param named `name` is stamped under.
pub open spec fn site_param_attribute(name: Seq<char>) -> Seq<char> {
    "xyz.tonk.site/"@ + name
}

/// Stamp route param `name` with `value`: the `entity` param is an entity
/// reference, every other param (model, view, repo, branch, …) is text.
pub fn site_param_claim(name: &str, value: &str) -> (p: SiteParam)
    ensures
        p.attribute@ == site_param_attribute(name@),
        name@ == "entity"@ ==> (p.value matches SiteParamValue::Entity(v) && v@ == value@),
        name@ != "entity"@ ==> (p.value matches SiteParamValue::Text(v) && v@ == value@),
{
    let mut attribute = String::from_str("xyz.tonk.site/");
    attribute.append(name);
    let value = if str_eq(name, "entity") {
        SiteParamValue::Entity(String::from_str(value))
    } else {
        SiteParamValue::Text(String::from_str(value))
    };
    SiteParam { attribute, value }
}

/// The param stamp `site_param_claim` produces, by its texts: attribute,
/// whether it is an entity, and the value.
pub open spec fn param_view(p: SiteParam) -> (Seq<char>, bool, Seq<char>) {
    match p.value {
        SiteParamValue::Entity(v) => (p.attribute@, true, v@),
        SiteParamValue::Text(v) => (p.attribute@, false, v@),
    }
}

/// The stamp a param `(name, value)` becomes.
pub open spec fn param_stamp(name: Seq<char>, value: Seq<char>) -> (Seq<char>, bool, Seq<char>) {
    (site_param_attribute(name), name == "entity"@, value)
}

/// Every param stamp a navigation writes beside the fixed site: each
/// captured route param (already decoded), in order, then the resolved
/// repository and branch as text, so route views can give their content a
/// repository context.
pub fn site_claims(params: &Vec<(String, String)>, repo: &str, branch: &str) -> (r: Vec<SiteParam>)
    ensures
        r@.len() == params@.len() + 2,
        forall|k: int| 0 <= k < params@.len() ==> param_view(#[trigger] r@[k]) == param_stamp(params@[k].0@, params@[k].1@),
        param_view(r@[params@.len() as int]) == param_stamp("repo"@, repo@),
        param_view(r@[params@.len() as int + 1]) == param_stamp("branch"@, branch@),
{
    let mut out: Vec<SiteParam> = Vec::new();
    let mut i: usize = 0;
    while i < params.len()
        invariant
            i <= params@.len(),
            out@.len() == i,
            forall|k: int| 0 <= k < i ==> param_view(#[trigger] out@[k]) == param_stamp(params@[k].0@, params@[k].1@),
        decreases params@.len() - i,
    {
        let p = site_param_claim(params[i].0.as_str(), params[i].1.as_str());
        out.push(p);
        i = i + 1;
    }
    let r = site_param_claim("repo", repo);
    out.push(r);
    let b = site_param_claim("branch", branch);
    out.push(b);
    proof {
        reveal_strlit("repo");
        reveal_strlit("branch");
        reveal_strlit("entity");
        assert("repo"@ != "entity"@) by {
            assert("repo"@.len() != "entity"@.len());
        }
        assert("branch"@ != "entity"@) by {
            assert("branch"@[0] != "entity"@[0]);
        }
    }
    out
}

/// A load command committed on the profile branch carries an empty
/// origin repository; that is what marks a profile-scoped stamp.
pub fn is_profile_origin(origin_repo: &str) -> (b: bool)
    ensures
        b == (origin_repo@.len() == 0),
{
    origin_repo.unicode_len() == 0
}

} // verus!
