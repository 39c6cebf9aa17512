//! The worker's HTTP route table, pinned, and the scan that reads the
//! registered paths out of the router's source: every `.route(` call
//! takes a string literal path, and the table lists exactly those paths,
//! sorted and without repeats.

use vstd::prelude::*;
use crate::text::{chars_le, chars_of, char_is_ws, is_ws, lex_le, lemma_lex_total, lemma_lex_trans, lemma_lex_antisym, string_of};

verus! {

broadcast use vstd::seq_lib::group_to_multiset_ensures;

/// The call every route registration goes through.
pub open spec fn route_call() -> Seq<char> {
    seq!['.', 'r', 'o', 'u', 't', 'e', '(']
}

/// Whether `p` occurs in `s` at `i`.
pub open spec fn occurs_at(s: Seq<char>, p: Seq<char>, i: int) -> bool {
    0 <= i && i + p.len() <= s.len() && s.subrange(i, i + p.len()) == p
}

/// The first position at or after `i` that is not whitespace.
pub open spec fn skip_ws(s: Seq<char>, i: int) -> int
    decreases s.len() - i,
{
    if i < s.len() && 0 <= i && is_ws(s[i]) {
        skip_ws(s, i + 1)
    } else {
        i
    }
}

/// The first `"` at or after `i`, if any.
pub open spec fn find_quote(s: Seq<char>, i: int) -> Option<int>
    decreases s.len() - i,
{
    if i < 0 || i >= s.len() {
        None
    } else if s[i] == '"' {
        Some(i)
    } else {
        find_quote(s, i + 1)
    }
}

/// The path literals of the `.route(` calls found from `i` on, in source
/// order; `None` when a call does not take a terminated string literal.
/// Each search resumes right after the previous call.
pub open spec fn scan_from(s: Seq<char>, i: int) -> Option<Seq<Seq<char>>>
    decreases s.len() - i,
{
    if i < 0 || i + 7 > s.len() {
        Some(Seq::empty())
    } else if occurs_at(s, route_call(), i) {
        let lit = skip_ws(s, i + 7);
        if lit < s.len() && s[lit] == '"' {
            match find_quote(s, lit + 1) {
                None => None,
                Some(end) => match scan_from(s, i + 7) {
                    Some(t) => Some(seq![s.subrange(lit + 1, end)] + t),
                    None => None,
                },
            }
        } else {
            None
        }
    } else {
        scan_from(s, i + 1)
    }
}

/// The path literals registered in `source`.
pub open spec fn route_literals(source: Seq<char>) -> Option<Seq<Seq<char>>> {
    scan_from(source, 0)
}

proof fn lemma_skip_ws(s: Seq<char>, i: int)
    requires
        0 <= i <= s.len(),
    ensures
        i <= skip_ws(s, i) <= s.len(),
        forall|k: int| i <= k < skip_ws(s, i) ==> is_ws(#[trigger] s[k]),
    decreases s.len() - i,
{
    if i < s.len() && is_ws(s[i]) {
        lemma_skip_ws(s, i + 1);
    }
}

proof fn lemma_find_quote(s: Seq<char>, i: int)
    requires
        0 <= i,
    ensures
        find_quote(s, i) matches Some(e) ==> i <= e < s.len() && s[e] == '"',
        find_quote(s, i) is None ==> forall|k: int| i <= k < s.len() ==> s[k] != '"',
    decreases s.len() - i,
{
    if i < s.len() && s[i] != '"' {
        lemma_find_quote(s, i + 1);
    }
}

fn ws_end(v: &Vec<char>, i: usize) -> (r: usize)
    requires
        i <= v.len(),
    ensures
        r == skip_ws(v@, i as int),
{
    let mut k = i;
    while k < v.len() && char_is_ws(v[k])
        invariant
            i <= k <= v.len(),
            skip_ws(v@, i as int) == skip_ws(v@, k as int),
        decreases v.len() - k,
    {
        k = k + 1;
    }
    k
}

fn quote_at(v: &Vec<char>, i: usize) -> (r: Option<usize>)
    requires
        i <= v.len(),
    ensures
        match r {
            Some(e) => find_quote(v@, i as int) == Some(e as int),
            None => find_quote(v@, i as int) is None,
        },
{
    let mut k = i;
    while k < v.len()
        invariant
            i <= k <= v.len(),
            find_quote(v@, i as int) == find_quote(v@, k as int),
        decreases v.len() - k,
    {
        if v[k] == '"' {
            return Some(k);
        }
        k = k + 1;
    }
    None
}

fn call_at(v: &Vec<char>, i: usize) -> (b: bool)
    requires
        i + 7 <= v.len(),
    ensures
        b == occurs_at(v@, route_call(), i as int),
{
    let call = ['.', 'r', 'o', 'u', 't', 'e', '('];
    let mut k: usize = 0;
    while k < 7
        invariant
            i + 7 <= v.len(),
            k <= 7,
            call@ == route_call(),
            forall|j: int| 0 <= j < k ==> v@[i + j] == route_call()[j],
        decreases 7 - k,
    {
        if v[i + k] != call[k] {
            assert(v@.subrange(i as int, i + 7)[k as int] != route_call()[k as int]);
            return false;
        }
        k = k + 1;
    }
    assert(v@.subrange(i as int, i + 7) =~= route_call());
    true
}

/// Join the literals found so far with the rest of the scan.
pub open spec fn joined(found: Seq<Seq<char>>, rest: Option<Seq<Seq<char>>>) -> Option<Seq<Seq<char>>> {
    match rest {
        Some(t) => Some(found + t),
        None => None,
    }
}

/// The path literals registered in `source`, in source order; `None`
/// when a `.route(` call does not take a terminated string literal.
pub fn scan_routes(source: &str) -> (r: Option<Vec<String>>)
    ensures
        match r {
            Some(v) => route_literals(source@) == Some(v@.map_values(|x: String| x@)),
            None => route_literals(source@) is None,
        },
{
    let s = chars_of(source);
    let mut found: Vec<String> = Vec::new();
    let mut i: usize = 0;
    while i < s.len() && s.len() - i >= 7
        invariant
            s@ == source@,
            i <= s.len(),
            route_literals(s@) == joined(found@.map_values(|x: String| x@), scan_from(s@, i as int)),
        decreases s.len() - i,
    {
        if call_at(&s, i) {
            let lit = ws_end(&s, i + 7);
            proof {
                lemma_skip_ws(s@, i + 7);
            }
            if lit < s.len() && s[lit] == '"' {
                match quote_at(&s, lit + 1) {
                    None => {
                        return None;
                    },
                    Some(end) => {
                        proof {
                            lemma_find_quote(s@, lit + 1);
                        }
                        let ghost before = found@.map_values(|x: String| x@);
                        let text = string_of(&s, lit + 1, end);
                        found.push(text);
                        proof {
                            let after = found@.map_values(|x: String| x@);
                            assert(after =~= before + seq![s@.subrange(lit + 1, end as int)]);
                            match scan_from(s@, i + 7) {
                                Some(t) => {
                                    assert(before + (seq![s@.subrange(lit + 1, end as int)] + t) =~= after + t);
                                },
                                None => {},
                            }
                        }
                        i = i + 7;
                    },
                }
            } else {
                return None;
            }
        } else {
            i = i + 1;
        }
    }
    proof {
        assert(found@.map_values(|x: String| x@) + Seq::<Seq<char>>::empty() =~= found@.map_values(|x: String| x@));
    }
    Some(found)
}

/// Whether `s` is in ascending `str` order.
pub open spec fn ascending(s: Seq<Seq<char>>) -> bool {
    forall|i: int, j: int| 0 <= i < j < s.len() ==> lex_le(#[trigger] s[i], #[trigger] s[j])
}

fn insert_sorted_text(out: &mut Vec<String>, x: String)
    requires
        ascending(old(out)@.map_values(|y: String| y@)),
    ensures
        ascending(final(out)@.map_values(|y: String| y@)),
        final(out)@.map_values(|y: String| y@).to_multiset() == old(out)@.map_values(|y: String| y@).to_multiset().insert(x@),
{
    let key = chars_of(x.as_str());
    let ghost before = out@.map_values(|y: String| y@);
    let mut p: usize = 0;
    while p < out.len() && chars_le(&chars_of(out[p].as_str()), &key)
        invariant
            p <= out.len(),
            key@ == x@,
            before == out@.map_values(|y: String| y@),
            forall|a: int| 0 <= a < p ==> lex_le((#[trigger] out@[a])@, x@),
        decreases out.len() - p,
    {
        p = p + 1;
    }
    proof {
        if p < before.len() {
            lemma_lex_total(before[p as int], x@);
        }
    }
    out.insert(p, x);
    proof {
        let t = out@.map_values(|y: String| y@);
        assert(t =~= before.insert(p as int, key@));
        assert forall|a: int, b: int| 0 <= a < b < t.len() implies lex_le(#[trigger] t[a], #[trigger] t[b]) by {
            if b < p {
                assert(t[a] == before[a] && t[b] == before[b]);
            } else if b == p {
                assert(t[a] == before[a]);
            } else if a == p {
                assert(t[b] == before[b - 1]);
                if b - 1 > p {
                    lemma_lex_trans(key@, before[p as int], before[b - 1]);
                }
            } else if a < p {
                assert(t[a] == before[a] && t[b] == before[b - 1]);
            } else {
                assert(t[a] == before[a - 1] && t[b] == before[b - 1]);
            }
        }
    }
}

/// `v` sorted into ascending `str` order, keeping every entry.
pub fn sort_texts(v: Vec<String>) -> (out: Vec<String>)
    ensures
        ascending(out@.map_values(|y: String| y@)),
        out@.map_values(|y: String| y@).to_multiset() == v@.map_values(|y: String| y@).to_multiset(),
{
    let ghost all = v@.map_values(|y: String| y@);
    let mut out: Vec<String> = Vec::new();
    let mut i: usize = 0;
    while i < v.len()
        invariant
            i <= v.len(),
            all == v@.map_values(|y: String| y@),
            ascending(out@.map_values(|y: String| y@)),
            out@.map_values(|y: String| y@).to_multiset() == all.subrange(0, i as int).to_multiset(),
        decreases v.len() - i,
    {
        assert(all.subrange(0, i + 1) =~= all.subrange(0, i as int).push(v@[i as int]@));
        insert_sorted_text(&mut out, v[i].clone());
        i = i + 1;
    }
    assert(all.subrange(0, v.len() as int) =~= all);
    out
}

/// Every path registered in `source`, sorted. The source must register
/// every route through `.route("literal", ...)`; `scan_routes` checks
/// that.
pub fn registered_routes(source: &str) -> (r: Vec<String>)
    requires
        route_literals(source@) is Some,
    ensures
        ascending(r@.map_values(|y: String| y@)),
        r@.map_values(|y: String| y@).to_multiset() == route_literals(source@)->0.to_multiset(),
{
    match scan_routes(source) {
        Some(found) => sort_texts(found),
        None => Vec::new(),
    }
}

/// Whether `s` is strictly ascending: sorted, with no path listed twice.
pub open spec fn strictly_ascending(s: Seq<Seq<char>>) -> bool {
    forall|i: int, j: int| 0 <= i < j < s.len() ==> lex_le(#[trigger] s[i], #[trigger] s[j]) && s[i] != s[j]
}

/// Whether a table is sorted and free of repeats.
pub fn is_sorted_unique(v: &Vec<String>) -> (b: bool)
    ensures
        b == strictly_ascending(v@.map_values(|y: String| y@)),
{
    let ghost s = v@.map_values(|y: String| y@);
    if v.len() < 2 {
        return true;
    }
    let mut i: usize = 1;
    while i < v.len()
        invariant
            1 <= i <= v.len(),
            s == v@.map_values(|y: String| y@),
            strictly_ascending(s.subrange(0, i as int)),
        decreases v.len() - i,
    {
        let a = chars_of(v[i - 1].as_str());
        let b = chars_of(v[i].as_str());
        if !chars_le(&a, &b) || crate::text::chars_eq(&a, &b) {
            proof {
                assert(s[i - 1] == a@ && s[i as int] == b@);
            }
            return false;
        }
        proof {
            let t = s.subrange(0, i + 1);
            assert forall|x: int, y: int| 0 <= x < y < t.len() implies lex_le(#[trigger] t[x], #[trigger] t[y]) && t[x] != t[y] by {
                assert(s.subrange(0, i as int)[x] == t[x]);
                if y < i {
                    assert(s.subrange(0, i as int)[y] == t[y]);
                } else if x < i - 1 {
                    assert(s.subrange(0, i as int)[i - 1] == t[i - 1]);
                    lemma_lex_trans(t[x], t[i - 1], t[y]);
                    if t[x] == t[y] {
                        lemma_lex_antisym(t[x], t[i - 1]);
                    }
                }
            }
        }
        i = i + 1;
    }
    assert(s.subrange(0, v.len() as int) =~= s);
    true
}

/// Every route the worker serves, sorted. The data plane (branch query,
/// transact, evaluate, blob, sync) belongs here; account, membership,
/// invite and custody operations are commands, or on their way to
/// becoming ones. Adding a route is a deliberate edit to this table.
pub open spec fn pinned_table() -> Seq<Seq<char>> {
    seq![
        "/api"@,
        "/api/account"@,
        "/api/account/attach"@,
        "/api/account/deletion/plan"@,
        "/api/account/devices"@,
        "/api/account/devices/register"@,
        "/api/account/devices/revoke"@,
        "/api/account/display-name"@,
        "/api/account/spaces/delete"@,
        "/api/account/summary"@,
        "/api/custody/provision"@,
        "/api/custody/queue"@,
        "/api/customer"@,
        "/api/customer/pending"@,
        "/api/identify"@,
        "/api/identity/root"@,
        "/api/inspect/repository/{repo}/archive/index/{hash}"@,
        "/api/inspect/repository/{repo}/branch/{branch}"@,
        "/api/inspect/repository/{repo}/remote/{remote}"@,
        "/api/inspect/repository/{repo}/remote/{remote}/archive/index/{hash}"@,
        "/api/inspect/repository/{repo}/remote/{remote}/branch/{branch}"@,
        "/api/migrate/repo-vs-profile"@,
        "/api/profile"@,
        "/api/profile/branch/{branch}/evaluate"@,
        "/api/profile/branch/{branch}/query"@,
        "/api/profile/branch/{branch}/site"@,
        "/api/profile/branch/{branch}/transact"@,
        "/api/profile/join"@,
        "/api/profile/repository"@,
        "/api/profiles"@,
        "/api/profiles/activate"@,
        "/api/profiles/add"@,
        "/api/repository/{repo}"@,
        "/api/repository/{repo}/branch/{branch}/blob"@,
        "/api/repository/{repo}/branch/{branch}/blob/{entity}"@,
        "/api/repository/{repo}/branch/{branch}/claim/assert/{entity}/{attr_ns}/{attr_name}"@,
        "/api/repository/{repo}/branch/{branch}/claim/retract/{entity}/{attr_ns}/{attr_name}"@,
        "/api/repository/{repo}/branch/{branch}/claim/select"@,
        "/api/repository/{repo}/branch/{branch}/evaluate"@,
        "/api/repository/{repo}/branch/{branch}/export"@,
        "/api/repository/{repo}/branch/{branch}/host/{host}/{entity}"@,
        "/api/repository/{repo}/branch/{branch}/import"@,
        "/api/repository/{repo}/branch/{branch}/query"@,
        "/api/repository/{repo}/branch/{branch}/site"@,
        "/api/repository/{repo}/branch/{branch}/sync"@,
        "/api/repository/{repo}/branch/{branch}/sync/pull"@,
        "/api/repository/{repo}/branch/{branch}/sync/push"@,
        "/api/repository/{repo}/branch/{branch}/sync/status"@,
        "/api/repository/{repo}/branch/{branch}/transact"@,
        "/api/repository/{repo}/invite"@,
        "/api/repository/{repo}/invites"@,
        "/api/repository/{repo}/invites/{target_cid}/revoke"@,
        "/api/repository/{repo}/remote"@,
        "/api/site"@,
        "/api/sync"@,
    ]
}

/// The pinned route table.
pub fn pinned_routes() -> (r: Vec<String>)
    ensures
        r@.map_values(|x: String| x@) == pinned_table(),
{
    let table: [&str; 55] = [
        "/api",
        "/api/account",
        "/api/account/attach",
        "/api/account/deletion/plan",
        "/api/account/devices",
        "/api/account/devices/register",
        "/api/account/devices/revoke",
        "/api/account/display-name",
        "/api/account/spaces/delete",
        "/api/account/summary",
        "/api/custody/provision",
        "/api/custody/queue",
        "/api/customer",
        "/api/customer/pending",
        "/api/identify",
        "/api/identity/root",
        "/api/inspect/repository/{repo}/archive/index/{hash}",
        "/api/inspect/repository/{repo}/branch/{branch}",
        "/api/inspect/repository/{repo}/remote/{remote}",
        "/api/inspect/repository/{repo}/remote/{remote}/archive/index/{hash}",
        "/api/inspect/repository/{repo}/remote/{remote}/branch/{branch}",
        "/api/migrate/repo-vs-profile",
        "/api/profile",
        "/api/profile/branch/{branch}/evaluate",
        "/api/profile/branch/{branch}/query",
        "/api/profile/branch/{branch}/site",
        "/api/profile/branch/{branch}/transact",
        "/api/profile/join",
        "/api/profile/repository",
        "/api/profiles",
        "/api/profiles/activate",
        "/api/profiles/add",
        "/api/repository/{repo}",
        "/api/repository/{repo}/branch/{branch}/blob",
        "/api/repository/{repo}/branch/{branch}/blob/{entity}",
        "/api/repository/{repo}/branch/{branch}/claim/assert/{entity}/{attr_ns}/{attr_name}",
        "/api/repository/{repo}/branch/{branch}/claim/retract/{entity}/{attr_ns}/{attr_name}",
        "/api/repository/{repo}/branch/{branch}/claim/select",
        "/api/repository/{repo}/branch/{branch}/evaluate",
        "/api/repository/{repo}/branch/{branch}/export",
        "/api/repository/{repo}/branch/{branch}/host/{host}/{entity}",
        "/api/repository/{repo}/branch/{branch}/import",
        "/api/repository/{repo}/branch/{branch}/query",
        "/api/repository/{repo}/branch/{branch}/site",
        "/api/repository/{repo}/branch/{branch}/sync",
        "/api/repository/{repo}/branch/{branch}/sync/pull",
        "/api/repository/{repo}/branch/{branch}/sync/push",
        "/api/repository/{repo}/branch/{branch}/sync/status",
        "/api/repository/{repo}/branch/{branch}/transact",
        "/api/repository/{repo}/invite",
        "/api/repository/{repo}/invites",
        "/api/repository/{repo}/invites/{target_cid}/revoke",
        "/api/repository/{repo}/remote",
        "/api/site",
        "/api/sync",
    ];
    let mut r: Vec<String> = Vec::new();
    let mut i: usize = 0;
    while i < 55
        invariant
            i <= 55,
            table@.map_values(|x: &str| x@) == pinned_table(),
            r@.len() == i,
            r@.map_values(|x: String| x@) == table@.map_values(|x: &str| x@).subrange(0, i as int),
        decreases 55 - i,
    {
        let ghost before = r@;
        let entry: &str = table[i];
        assert(entry@ == table@[i as int]@);
        let text = String::from_str(entry);
        r.push(text);
        proof {
            let lhs = r@.map_values(|x: String| x@);
            let rhs = table@.map_values(|x: &str| x@).subrange(0, i + 1);
            assert forall|k: int| 0 <= k < i + 1 implies #[trigger] lhs[k] == rhs[k] by {
                if k < i {
                    assert(r@[k] == before[k]);
                    assert(before.map_values(|x: String| x@)[k] == table@.map_values(|x: &str| x@).subrange(0, i as int)[k]);
                } else {
                    assert(r@[k] == text);
                }
            }
            assert(lhs =~= rhs);
        }
        i = i + 1;
    }
    r
}

} // verus!
