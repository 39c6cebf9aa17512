//! Rotating custody from the onboarding account to the passkey account:
//! which recipient the seeds are resealed to, when the onboarding account
//! may retire, which founder rows need repair, and how a member's roster
//! bundle moves from the onboarding membership to the account's.

use vstd::prelude::*;
use crate::errors::TonkWorkerError;
use crate::roster::Row;
use crate::text::str_eq;

verus! {

/// The recipient seeds are resealed to: the account's published sealed
/// inbox, else the encryption key on the root record; `None` defers the
/// rotation (no key yet, or the published fact could not be read).
pub fn rotation_recipient(published: Result<Option<String>, String>, root_key: Option<String>) -> (r: Option<String>)
    ensures
        r == (match published {
            Ok(Some(p)) => Some(p),
            Ok(None) => root_key,
            Err(_) => None,
        }),
{
    match published {
        Ok(Some(p)) => Some(p),
        Ok(None) => root_key,
        Err(_) => None,
    }
}

/// The onboarding account retires only once every seed rotated: a seed
/// that failed stays sealed to it, and retiring would strand it.
pub fn retires_onboarding(failures: usize) -> (b: bool)
    ensures
        b == (failures == 0),
{
    failures == 0
}

/// Whether membership `m` (entity, member) carries the founder role among
/// `roles` (entity, role).
pub open spec fn is_founder(m: Row, roles: Seq<Row>, founder: Seq<char>) -> bool {
    exists|k: int| 0 <= k < roles.len() && (#[trigger] roles[k]).0@ == m.0@ && roles[k].1@ == founder
}

/// Whether `m` is a founder row left behind on an older member: a
/// founder whose member is not the account root.
pub open spec fn stale_founder(m: Row, roles: Seq<Row>, founder: Seq<char>, root: Seq<char>) -> bool {
    m.1@ != root && is_founder(m, roles, founder)
}

/// The founder rows a repair looks at, in roster order: founders whose
/// member is not the account root. (A role alone does not move a row; the
/// grant check that follows decides.)
pub fn founder_candidates(memberships: &Vec<Row>, roles: &Vec<Row>, founder: &str, root: &str) -> (r: Vec<Row>)
    ensures
        r@ == memberships@.filter(|m: Row| stale_founder(m, roles@, founder@, root@)),
{
    let mut out: Vec<Row> = Vec::new();
    let mut i: usize = 0;
    while i < memberships.len()
        invariant
            i <= memberships.len(),
            out@ == memberships@.subrange(0, i as int).filter(|m: Row| stale_founder(m, roles@, founder@, root@)),
        decreases memberships.len() - i,
    {
        let m = &memberships[i];
        let mut has_role = false;
        let mut k: usize = 0;
        while k < roles.len()
            invariant
                k <= roles.len(),
                has_role == exists|j: int| 0 <= j < k && (#[trigger] roles@[j]).0@ == m.0@ && roles@[j].1@ == founder@,
            decreases roles.len() - k,
        {
            if str_eq(roles[k].0.as_str(), m.0.as_str()) && str_eq(roles[k].1.as_str(), founder) {
                has_role = true;
            }
            k = k + 1;
        }
        proof {
            let pre = memberships@.subrange(0, i + 1);
            assert(pre.drop_last() =~= memberships@.subrange(0, i as int));
            reveal(Seq::filter);
        }
        if has_role && !str_eq(m.1.as_str(), root) {
            out.push((m.0.clone(), m.1.clone()));
        }
        i = i + 1;
    }
    assert(memberships@.subrange(0, memberships.len() as int) =~= memberships@);
    out
}

/// The stamps a membership carries: its roles, display names and invite
/// provenance (one value per row).
#[derive(Clone, Debug)]
pub struct RosterStamps {
    pub roles: Vec<String>,
    pub names: Vec<String>,
    pub invitations: Vec<String>,
}

/// One content commit moving a member's roster bundle to the account's
/// membership: assert the account membership, retract every onboarding
/// membership row and stamp, and copy each kind of stamp over only where
/// the account membership has none of that kind.
#[derive(Clone, Debug)]
pub struct RosterMigration {
    /// How many onboarding membership rows are retracted.
    pub retracted_memberships: usize,
    /// The onboarding stamps retracted.
    pub retracted: RosterStamps,
    /// The stamps asserted on the account membership.
    pub copied: RosterStamps,
}

/// The stamps of one kind the account membership receives: the onboarding
/// ones when it has none of its own, else none (account-side stamps win).
pub open spec fn copied_kind(previous: Seq<String>, replacement: Seq<String>) -> Seq<String> {
    if replacement.len() == 0 {
        previous
    } else {
        Seq::empty()
    }
}

fn copy_kind(previous: &Vec<String>, replacement: &Vec<String>) -> (r: Vec<String>)
    ensures
        r@ == copied_kind(previous@, replacement@),
{
    if replacement.len() == 0 {
        previous.clone()
    } else {
        Vec::new()
    }
}

/// Plan the move of the roster from the onboarding membership (`previous`
/// rows and stamps) to the account membership (`replacement` rows and
/// stamps) of `space`. With no onboarding membership there is nothing to
/// move: that is fine when the account already holds its membership (a
/// repeated migration), and an error otherwise.
pub fn membership_migration(
    space: &str,
    previous_rows: usize,
    replacement_rows: usize,
    previous: &RosterStamps,
    replacement: &RosterStamps,
) -> (r: Result<Option<RosterMigration>, TonkWorkerError>)
    ensures
        previous_rows == 0 && replacement_rows == 0 ==> (r matches Err(TonkWorkerError::NotFound(m)) && m@ == space@
            + ": no onboarding membership to accredit"@),
        previous_rows == 0 && replacement_rows > 0 ==> r matches Ok(None),
        previous_rows > 0 ==> (r matches Ok(Some(p)) && {
            &&& p.retracted_memberships == previous_rows
            &&& p.retracted.roles@ == previous.roles@
            &&& p.retracted.names@ == previous.names@
            &&& p.retracted.invitations@ == previous.invitations@
            &&& p.copied.roles@ == copied_kind(previous.roles@, replacement.roles@)
            &&& p.copied.names@ == copied_kind(previous.names@, replacement.names@)
            &&& p.copied.invitations@ == copied_kind(previous.invitations@, replacement.invitations@)
        }),
{
    if previous_rows == 0 {
        if replacement_rows == 0 {
            let mut m = String::from_str(space);
            m.append(": no onboarding membership to accredit");
            return Err(TonkWorkerError::NotFound(m));
        }
        return Ok(None);
    }
    let copied = RosterStamps {
        roles: copy_kind(&previous.roles, &replacement.roles),
        names: copy_kind(&previous.names, &replacement.names),
        invitations: copy_kind(&previous.invitations, &replacement.invitations),
    };
    let retracted = RosterStamps {
        roles: previous.roles.clone(),
        names: previous.names.clone(),
        invitations: previous.invitations.clone(),
    };
    Ok(Some(RosterMigration { retracted_memberships: previous_rows, retracted, copied }))
}

/// A space's persisted root prefix, as the membership search reads it:
/// the space, the chain's audience, and the issuer of its last hop.
#[derive(Clone, Debug)]
pub struct PrefixSummary {
    pub space: String,
    pub audience: String,
    pub last_issuer: Option<String>,
}

/// Whether a prefix is the membership chain that ends at `principal`: it
/// is addressed to the onboarding account (or already to the root, from an
/// interrupted earlier attempt) and its last hop was issued by the
/// principal.
pub open spec fn ends_at(p: PrefixSummary, onboarding: Seq<char>, root: Seq<char>, principal: Seq<char>) -> bool {
    (p.audience@ == onboarding || p.audience@ == root) && (p.last_issuer matches Some(i) && i@ == principal)
}

/// The first space whose prefix is the membership chain ending at
/// `principal`; none means the principal holds no membership to re-root.
pub fn find_membership_chain(prefixes: &Vec<PrefixSummary>, onboarding: &str, root: &str, principal: &str) -> (r: Option<usize>)
    ensures
        match r {
            Some(i) => i < prefixes@.len() && ends_at(prefixes@[i as int], onboarding@, root@, principal@) && forall|j: int|
                0 <= j < i ==> !ends_at(#[trigger] prefixes@[j], onboarding@, root@, principal@),
            None => forall|j: int| 0 <= j < prefixes@.len() ==> !ends_at(#[trigger] prefixes@[j], onboarding@, root@, principal@),
        },
{
    let mut i: usize = 0;
    while i < prefixes.len()
        invariant
            i <= prefixes@.len(),
            forall|j: int| 0 <= j < i ==> !ends_at(#[trigger] prefixes@[j], onboarding@, root@, principal@),
        decreases prefixes@.len() - i,
    {
        let p = &prefixes[i];
        let addressed = str_eq(p.audience.as_str(), onboarding) || str_eq(p.audience.as_str(), root);
        let issued = match &p.last_issuer {
            Some(x) => str_eq(x.as_str(), principal),
            None => false,
        };
        if addressed && issued {
            return Some(i);
        }
        i = i + 1;
    }
    None
}

/// The hops of the re-rooted membership chain: the prefix's hops with its
/// last (principal → onboarding) replaced by the freshly minted
/// principal → root hop. A chain of a single hop has nothing left to
/// rebuild on.
pub fn rerooted_hops(space: &str, hops: &Vec<String>, new_hop: String) -> (r: Result<Vec<String>, TonkWorkerError>)
    ensures
        hops@.len() >= 2 ==> (r matches Ok(v) && v@ == hops@.drop_last().push(new_hop)),
        hops@.len() < 2 ==> (r matches Err(TonkWorkerError::Internal(m)) && m@ == space@ + ": chain has one hop"@),
{
    if hops.len() < 2 {
        let mut m = String::from_str(space);
        m.append(": chain has one hop");
        return Err(TonkWorkerError::Internal(m));
    }
    let mut out: Vec<String> = Vec::new();
    let keep = hops.len() - 1;
    let mut i: usize = 0;
    while i < keep
        invariant
            hops@.len() >= 2,
            keep == hops@.len() - 1,
            i <= keep,
            out@ == hops@.subrange(0, i as int),
        decreases hops@.len() - i,
    {
        out.push(hops[i].clone());
        i = i + 1;
        assert(out@ =~= hops@.subrange(0, i as int));
    }
    out.push(new_hop);
    assert(out@ =~= hops@.drop_last().push(new_hop));
    Ok(out)
}

/// A re-rooted membership retracts the onboarding leaf only when the
/// chain's audience actually changed (a resumed attempt has nothing left
/// to retract).
pub fn retracts_previous_leaf(previous_audience: &str, replacement_audience: &str) -> (b: bool)
    ensures
        b == (previous_audience@ != replacement_audience@),
{
    !str_eq(previous_audience, replacement_audience)
}

} // verus!
