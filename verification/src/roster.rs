//! A repository's member list, assembled from the roster rows on its
//! content branch: one entry per membership, joined with the member's
//! published name and, through the invitation they redeemed, who invited
//! them; ordered self first, then named members alphabetically, unnamed
//! last, the DID breaking ties.

use vstd::prelude::*;
use crate::text::{chars_le, chars_of, lex_le, lemma_lex_antisym, lemma_lex_total, lemma_lex_trans, str_eq};

verus! {

broadcast use vstd::seq_lib::group_to_multiset_ensures;

/// One member of a repository.
#[derive(Clone, Debug)]
pub struct MemberInfo {
    /// The member profile's did:key URI.
    pub did: String,
    /// The member's published display name, if any.
    pub name: Option<String>,
    /// Whether this member is the active profile.
    pub is_self: bool,
    /// The inviter's did:key, when provenance was recorded.
    pub invited_by: Option<String>,
}

/// A row keyed by an entity: `(entity, value)`.
pub type Row = (String, String);

/// The value of the last row keyed by `k` — a later row overrides an
/// earlier one, as building a map from the rows would.
pub open spec fn last_value(rows: Seq<Row>, k: Seq<char>) -> Option<String>
    decreases rows.len(),
{
    if rows.len() == 0 {
        None
    } else if rows.last().0@ == k {
        Some(rows.last().1)
    } else {
        last_value(rows.drop_last(), k)
    }
}

/// The inviter recorded for membership `m`: the last provenance row of `m`
/// whose invitation is known, read through that invitation.
pub open spec fn inviter_of(prov: Seq<Row>, invitations: Seq<Row>, m: Seq<char>) -> Option<String>
    decreases prov.len(),
{
    if prov.len() == 0 {
        None
    } else if prov.last().0@ == m && last_value(invitations, prov.last().1@) is Some {
        last_value(invitations, prov.last().1@)
    } else {
        inviter_of(prov.drop_last(), invitations, m)
    }
}

/// The member entry a membership row `(membership entity, member DID)`
/// becomes.
pub open spec fn member_of(
    m: Row,
    names: Seq<Row>,
    prov: Seq<Row>,
    invitations: Seq<Row>,
    self_member: Option<Seq<char>>,
) -> MemberInfo {
    MemberInfo {
        did: m.1,
        name: last_value(names, m.0@),
        is_self: self_member == Some(m.1@),
        invited_by: inviter_of(prov, invitations, m.0@),
    }
}

/// Whether `a` may come before `b`: self first, named before unnamed,
/// names ascending, DID ascending.
pub open spec fn member_le(a: MemberInfo, b: MemberInfo) -> bool {
    if a.is_self != b.is_self {
        a.is_self
    } else if (a.name is Some) != (b.name is Some) {
        a.name is Some
    } else if a.name is Some && a.name.unwrap()@ != b.name.unwrap()@ {
        lex_le(a.name.unwrap()@, b.name.unwrap()@)
    } else {
        lex_le(a.did@, b.did@)
    }
}

pub proof fn lemma_member_total(a: MemberInfo, b: MemberInfo)
    ensures
        member_le(a, b) || member_le(b, a),
{
    if a.name is Some && b.name is Some {
        lemma_lex_total(a.name.unwrap()@, b.name.unwrap()@);
    }
    lemma_lex_total(a.did@, b.did@);
}

pub proof fn lemma_member_trans(a: MemberInfo, b: MemberInfo, c: MemberInfo)
    requires
        member_le(a, b),
        member_le(b, c),
    ensures
        member_le(a, c),
{
    if a.is_self == b.is_self && b.is_self == c.is_self && (a.name is Some) == (b.name is Some) && (b.name is Some) == (c.name is Some) {
        if a.name is Some {
            let (na, nb, nc) = (a.name.unwrap()@, b.name.unwrap()@, c.name.unwrap()@);
            if na != nb && nb != nc {
                lemma_lex_trans(na, nb, nc);
                if na == nc {
                    lemma_lex_antisym(na, nb);
                }
            } else if na == nb && nb == nc {
                lemma_lex_trans(a.did@, b.did@, c.did@);
            }
        } else {
            lemma_lex_trans(a.did@, b.did@, c.did@);
        }
    }
}

/// Whether `s` is ordered by `member_le`.
pub open spec fn members_sorted(s: Seq<MemberInfo>) -> bool {
    forall|i: int, j: int| 0 <= i < j < s.len() ==> member_le(#[trigger] s[i], #[trigger] s[j])
}

/// Whether `a` and `b` are tied: each may precede the other, so the order
/// leaves their places to the order they came in.
pub open spec fn member_tied(a: MemberInfo, b: MemberInfo) -> bool {
    member_le(a, b) && member_le(b, a)
}

/// The test for being tied with `k`.
pub open spec fn tied_with(k: MemberInfo) -> spec_fn(MemberInfo) -> bool {
    |x: MemberInfo| member_tied(x, k)
}

/// The entries of `s` tied with `k`, in the order `s` holds them.
pub open spec fn ties_of(s: Seq<MemberInfo>, k: MemberInfo) -> Seq<MemberInfo> {
    s.filter(tied_with(k))
}

proof fn lemma_no_ties(s: Seq<MemberInfo>, k: MemberInfo)
    requires
        forall|i: int| 0 <= i < s.len() ==> !member_tied(#[trigger] s[i], k),
    ensures
        ties_of(s, k) == Seq::<MemberInfo>::empty(),
    decreases s.len(),
{
    reveal(Seq::filter);
    if s.len() > 0 {
        lemma_no_ties(s.drop_last(), k);
    }
}

pub(crate) fn find_last_row(rows: &Vec<Row>, k: &str) -> (r: Option<String>)
    ensures
        r == last_value(rows@, k@),
{
    let mut i = rows.len();
    assert(rows@.subrange(0, i as int) =~= rows@);
    while i > 0
        invariant
            i <= rows.len(),
            last_value(rows@, k@) == last_value(rows@.subrange(0, i as int), k@),
        decreases i,
    {
        let ghost pre = rows@.subrange(0, i as int);
        assert(pre.drop_last() =~= rows@.subrange(0, i - 1));
        assert(pre.last() == rows@[i - 1]);
        if str_eq(rows[i - 1].0.as_str(), k) {
            return Some(rows[i - 1].1.clone());
        }
        i = i - 1;
    }
    None
}

fn find_inviter(prov: &Vec<Row>, invitations: &Vec<Row>, m: &str) -> (r: Option<String>)
    ensures
        r == inviter_of(prov@, invitations@, m@),
{
    let mut i = prov.len();
    assert(prov@.subrange(0, i as int) =~= prov@);
    while i > 0
        invariant
            i <= prov.len(),
            inviter_of(prov@, invitations@, m@) == inviter_of(prov@.subrange(0, i as int), invitations@, m@),
        decreases i,
    {
        let ghost pre = prov@.subrange(0, i as int);
        assert(pre.drop_last() =~= prov@.subrange(0, i - 1));
        assert(pre.last() == prov@[i - 1]);
        if str_eq(prov[i - 1].0.as_str(), m) {
            let found = find_last_row(invitations, prov[i - 1].1.as_str());
            if found.is_some() {
                return found;
            }
        }
        i = i - 1;
    }
    None
}

fn member_le_exec(a: &MemberInfo, b: &MemberInfo) -> (r: bool)
    ensures
        r == member_le(*a, *b),
{
    if a.is_self != b.is_self {
        return a.is_self;
    }
    if a.name.is_some() != b.name.is_some() {
        return a.name.is_some();
    }
    match (&a.name, &b.name) {
        (Some(x), Some(y)) => {
            let xc = chars_of(x.as_str());
            let yc = chars_of(y.as_str());
            if !crate::text::chars_eq(&xc, &yc) {
                return chars_le(&xc, &yc);
            }
        },
        _ => {},
    }
    chars_le(&chars_of(a.did.as_str()), &chars_of(b.did.as_str()))
}

/// Insert `m` after every entry that may precede it, keeping the list
/// sorted and placing `m` after the entries it is tied with.
fn insert_member(out: &mut Vec<MemberInfo>, m: MemberInfo)
    requires
        members_sorted(old(out)@),
    ensures
        members_sorted(final(out)@),
        final(out)@.to_multiset() == old(out)@.to_multiset().insert(m),
        forall|k: MemberInfo| #[trigger] ties_of(final(out)@, k) == if member_tied(m, k) {
            ties_of(old(out)@, k).push(m)
        } else {
            ties_of(old(out)@, k)
        },
{
    let mut p: usize = 0;
    while p < out.len() && member_le_exec(&out[p], &m)
        invariant
            p <= out.len(),
            forall|a: int| 0 <= a < p ==> member_le(#[trigger] out@[a], m),
        decreases out.len() - p,
    {
        p = p + 1;
    }
    let ghost before = out@;
    proof {
        if p < before.len() {
            lemma_member_total(before[p as int], m);
        }
    }
    out.insert(p, m);
    proof {
        let t = out@;
        assert forall|a: int, b: int| 0 <= a < b < t.len() implies member_le(#[trigger] t[a], #[trigger] t[b]) by {
            if b < p {
                assert(t[a] == before[a] && t[b] == before[b]);
            } else if b == p {
                assert(t[a] == before[a]);
            } else if a == p {
                assert(t[b] == before[b - 1]);
                if b - 1 > p {
                    lemma_member_trans(m, before[p as int], before[b - 1]);
                }
            } else if a < p {
                assert(t[a] == before[a] && t[b] == before[b - 1]);
            } else {
                assert(t[a] == before[a - 1] && t[b] == before[b - 1]);
            }
        }
        let prefix = before.subrange(0, p as int);
        let suffix = before.subrange(p as int, before.len() as int);
        assert(before =~= prefix + suffix);
        assert(t =~= prefix.push(m) + suffix);
        assert forall|q: int| 0 <= q < suffix.len() implies !member_le(#[trigger] suffix[q], m) by {
            if q > 0 && member_le(suffix[q], m) {
                assert(member_le(before[p as int], before[p + q]));
                lemma_member_trans(before[p as int], suffix[q], m);
            }
        }
        assert forall|k: MemberInfo| #[trigger] ties_of(t, k) == if member_tied(m, k) {
            ties_of(before, k).push(m)
        } else {
            ties_of(before, k)
        } by {
            let f = tied_with(k);
            Seq::filter_distributes_over_add(prefix.push(m), suffix, f);
            Seq::filter_distributes_over_add(prefix, suffix, f);
            prefix.lemma_filter_push(m, f);
            if member_tied(m, k) {
                assert forall|q: int| 0 <= q < suffix.len() implies !member_tied(#[trigger] suffix[q], k) by {
                    if member_tied(suffix[q], k) {
                        lemma_member_trans(suffix[q], k, m);
                    }
                }
                lemma_no_ties(suffix, k);
                assert(ties_of(t, k) =~= ties_of(before, k).push(m));
            }
        }
    }
}

/// The member entries spelled out by the roster rows, in membership order.
pub open spec fn assembled_members(
    memberships: Seq<Row>,
    names: Seq<Row>,
    prov: Seq<Row>,
    invitations: Seq<Row>,
    self_member: Option<Seq<char>>,
) -> Seq<MemberInfo> {
    memberships.map_values(|m: Row| member_of(m, names, prov, invitations, self_member))
}

/// Assemble the member list from the roster rows:
/// `memberships` are `(membership entity, member DID)`, `names` are
/// `(membership entity, display name)`, `prov` are `(membership entity,
/// invitation entity)`, `invitations` are `(invitation entity, inviter DID)`,
/// and `self_member` is the active profile's member DID. The result holds
/// exactly one entry per membership row, sorted by `member_le`; entries
/// that tie keep the order of their rows.
pub fn build_members(
    memberships: &Vec<Row>,
    names: &Vec<Row>,
    prov: &Vec<Row>,
    invitations: &Vec<Row>,
    self_member: &Option<String>,
) -> (out: Vec<MemberInfo>)
    ensures
        out@.to_multiset() == assembled_members(
            memberships@,
            names@,
            prov@,
            invitations@,
            match self_member {
                Some(s) => Some(s@),
                None => None,
            },
        ).to_multiset(),
        members_sorted(out@),
        forall|k: MemberInfo| #[trigger] ties_of(out@, k) == ties_of(
            assembled_members(
                memberships@,
                names@,
                prov@,
                invitations@,
                match self_member {
                    Some(s) => Some(s@),
                    None => None,
                },
            ),
            k,
        ),
{
    let ghost sm = match self_member {
        Some(s) => Some(s@),
        None => None::<Seq<char>>,
    };
    let ghost all = assembled_members(memberships@, names@, prov@, invitations@, sm);
    let mut out: Vec<MemberInfo> = Vec::new();
    let mut i: usize = 0;
    while i < memberships.len()
        invariant
            i <= memberships.len(),
            all == assembled_members(memberships@, names@, prov@, invitations@, sm),
            sm == (match self_member {
                Some(s) => Some(s@),
                None => None,
            }),
            members_sorted(out@),
            out@.to_multiset() == all.subrange(0, i as int).to_multiset(),
            forall|k: MemberInfo| #[trigger] ties_of(out@, k) == ties_of(all.subrange(0, i as int), k),
        decreases memberships.len() - i,
    {
        let row = &memberships[i];
        let is_self = match self_member {
            Some(s) => str_eq(s.as_str(), row.1.as_str()),
            None => false,
        };
        let info = MemberInfo {
            did: row.1.clone(),
            name: find_last_row(names, row.0.as_str()),
            is_self,
            invited_by: find_inviter(prov, invitations, row.0.as_str()),
        };
        assert(info == member_of(memberships@[i as int], names@, prov@, invitations@, sm));
        assert(all.subrange(0, i + 1) =~= all.subrange(0, i as int).push(info));
        insert_member(&mut out, info);
        proof {
            assert forall|k: MemberInfo| #[trigger] ties_of(out@, k) == ties_of(all.subrange(0, i + 1), k) by {
                all.subrange(0, i as int).lemma_filter_push(info, tied_with(k));
            }
        }
        i = i + 1;
    }
    assert(all.subrange(0, memberships.len() as int) =~= all);
    out
}

/// The active profile's own entry leads the member list: in a sorted
/// list holding it, it comes first.
pub proof fn law_self_member_first(s: Seq<MemberInfo>, i: int)
    requires
        members_sorted(s),
        0 <= i < s.len(),
        s[i].is_self,
    ensures
        s[0].is_self,
{
    if i > 0 {
        assert(member_le(s[0], s[i]));
    }
}

/// Named members come before unnamed ones among entries that are both
/// self or both not.
pub proof fn law_named_before_unnamed(s: Seq<MemberInfo>, i: int, j: int)
    requires
        members_sorted(s),
        0 <= i < s.len(),
        0 <= j < s.len(),
        s[i].is_self == s[j].is_self,
        s[i].name is Some,
        s[j].name is None,
    ensures
        i < j,
{
    if j < i {
        assert(member_le(s[j], s[i]));
    }
}

} // verus!
