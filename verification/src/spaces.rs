//! The space endpoints' request and response shapes, and what each
//! endpoint answers from what it read: the list sorted by DID, creation
//! and metadata echoes, and the repository status.

use vstd::prelude::*;
use crate::text::{chars_le, chars_of, lex_le, lemma_lex_total, lemma_lex_trans};

verus! {

broadcast use vstd::seq_lib::group_to_multiset_ensures;

/// Request body for creating a new space.
#[derive(Clone, Debug)]
pub struct CreateSpaceRequest {
    /// Optional human-readable name for the space.
    pub name: Option<String>,
    /// Optional description of the space.
    pub description: Option<String>,
}

impl Default for CreateSpaceRequest {
    fn default() -> (r: Self)
        ensures
            r.name is None,
            r.description is None,
    {
        CreateSpaceRequest { name: None, description: None }
    }
}

/// Response for space creation.
#[derive(Clone, Debug)]
pub struct CreateSpaceResponse {
    /// The DID of the newly created space.
    pub did: String,
    /// The name of the space, if one was given.
    pub name: Option<String>,
    /// The description of the space, if one was given.
    pub description: Option<String>,
}

/// The creation answer: the new space's DID, echoing the requested name
/// and description.
pub fn create_space_response(did: String, request: CreateSpaceRequest) -> (r: CreateSpaceResponse)
    ensures
        r.did == did,
        r.name == request.name,
        r.description == request.description,
{
    CreateSpaceResponse { did, name: request.name, description: request.description }
}

/// Information about a single space.
#[derive(Clone, Debug)]
pub struct SpaceInfo {
    /// The space's DID.
    pub did: String,
    /// Optional human-readable name for the space.
    pub name: Option<String>,
    /// Optional description of the space.
    pub description: Option<String>,
}

/// Response for the space list endpoint.
#[derive(Clone, Debug)]
pub struct ListSpacesResponse {
    /// The spaces the identity knows, sorted by DID.
    pub spaces: Vec<SpaceInfo>,
}

/// The list entry a known DID becomes: no metadata is fetched.
pub open spec fn bare_space(did: String) -> SpaceInfo {
    SpaceInfo { did, name: None, description: None }
}

/// Whether `s` is ordered by DID.
pub open spec fn sorted_by_did(s: Seq<SpaceInfo>) -> bool {
    forall|i: int, j: int| 0 <= i < j < s.len() ==> lex_le((#[trigger] s[i]).did@, (#[trigger] s[j]).did@)
}

fn insert_by_did(out: &mut Vec<SpaceInfo>, info: SpaceInfo)
    requires
        sorted_by_did(old(out)@),
    ensures
        sorted_by_did(final(out)@),
        final(out)@.to_multiset() == old(out)@.to_multiset().insert(info),
{
    let key = chars_of(info.did.as_str());
    let mut p: usize = 0;
    while p < out.len() && chars_le(&chars_of(out[p].did.as_str()), &key)
        invariant
            p <= out.len(),
            key@ == info.did@,
            forall|a: int| 0 <= a < p ==> lex_le((#[trigger] out@[a]).did@, info.did@),
        decreases out.len() - p,
    {
        p = p + 1;
    }
    let ghost before = out@;
    proof {
        if p < before.len() {
            lemma_lex_total(before[p as int].did@, info.did@);
        }
    }
    out.insert(p, info);
    proof {
        let t = out@;
        assert forall|a: int, b: int| 0 <= a < b < t.len() implies lex_le((#[trigger] t[a]).did@, (#[trigger] t[b]).did@) by {
            if b < p {
                assert(t[a] == before[a] && t[b] == before[b]);
            } else if b == p {
                assert(t[a] == before[a]);
            } else if a == p {
                assert(t[b] == before[b - 1]);
                if b - 1 > p {
                    lemma_lex_trans(info.did@, before[p as int].did@, before[b - 1].did@);
                }
            } else if a < p {
                assert(t[a] == before[a] && t[b] == before[b - 1]);
            } else {
                assert(t[a] == before[a - 1] && t[b] == before[b - 1]);
            }
        }
    }
}

/// The list answer: one bare entry per known DID, sorted by DID.
pub fn list_spaces_response(known: Vec<String>) -> (r: ListSpacesResponse)
    ensures
        r.spaces@.to_multiset() == known@.map_values(|d: String| bare_space(d)).to_multiset(),
        sorted_by_did(r.spaces@),
{
    let ghost all = known@.map_values(|d: String| bare_space(d));
    let mut out: Vec<SpaceInfo> = Vec::new();
    let mut i: usize = 0;
    while i < known.len()
        invariant
            i <= known.len(),
            all == known@.map_values(|d: String| bare_space(d)),
            sorted_by_did(out@),
            out@.to_multiset() == all.subrange(0, i as int).to_multiset(),
        decreases known.len() - i,
    {
        let info = SpaceInfo { did: known[i].clone(), name: None, description: None };
        assert(all.subrange(0, i + 1) =~= all.subrange(0, i as int).push(info));
        insert_by_did(&mut out, info);
        i = i + 1;
    }
    assert(all.subrange(0, known.len() as int) =~= all);
    ListSpacesResponse { spaces: out }
}

/// Response for getting space metadata.
#[derive(Clone, Debug)]
pub struct SpaceMetadataResponse {
    /// The space's DID.
    pub did: String,
    /// The space's name, if set.
    pub name: Option<String>,
    /// The space's description, if set.
    pub description: Option<String>,
}

/// Request body for updating space metadata; only given fields change.
#[derive(Clone, Debug)]
pub struct UpdateMetadataRequest {
    /// New name for the space, if it changes.
    pub name: Option<String>,
    /// New description for the space, if it changes.
    pub description: Option<String>,
}

impl Default for UpdateMetadataRequest {
    fn default() -> (r: Self)
        ensures
            r.name is None,
            r.description is None,
    {
        UpdateMetadataRequest { name: None, description: None }
    }
}

/// The metadata a space holds after an update: each given field replaces
/// the stored one, an omitted field keeps it.
pub fn updated_metadata(did: String, current: SpaceMetadataResponse, request: UpdateMetadataRequest) -> (r: SpaceMetadataResponse)
    ensures
        r.did == did,
        r.name == (if request.name is Some { request.name } else { current.name }),
        r.description == (if request.description is Some { request.description } else { current.description }),
{
    let name = match request.name {
        Some(n) => Some(n),
        None => current.name,
    };
    let description = match request.description {
        Some(d) => Some(d),
        None => current.description,
    };
    SpaceMetadataResponse { did, name, description }
}

/// Status response indicating the current repository state.
#[derive(Clone, Debug)]
pub struct StatusResponse {
    /// The repository name.
    pub repo_name: String,
    /// The DID of the repository (space).
    pub space_did: String,
    /// The DID of the operator (profile).
    pub operator_did: String,
    /// Whether the default branch has an upstream remote configured.
    pub has_upstream: bool,
}

/// The status answer. `main_upstream` is what loading `main` gave: `None`
/// when it could not be loaded, else whether it tracks an upstream; a
/// branch that cannot be loaded has none.
pub fn status_response(repo_name: String, space_did: String, operator_did: String, main_upstream: Option<bool>) -> (r: StatusResponse)
    ensures
        r.repo_name == repo_name,
        r.space_did == space_did,
        r.operator_did == operator_did,
        r.has_upstream == (main_upstream == Some(true)),
{
    let has_upstream = match main_upstream {
        Some(b) => b,
        None => false,
    };
    StatusResponse { repo_name, space_did, operator_did, has_upstream }
}

} // verus!
