//! The repositories owed a sync sweep, in two sets.
//!
//! A commit marks its repository `dirty` (it has un-pushed local work); a
//! failed sweep puts it in `retrying`. The drain gate reads only the dirty
//! count, so "this failed, try again" is never mistaken for "the user has
//! un-pushed work". A drain hands out every dirty repository (most recent
//! commit first) and then every repository awaiting a retry, and empties
//! both sets.
//!
//! Timestamps are milliseconds since the epoch, as the service worker's
//! `Date.now()` reports them.

use vstd::prelude::*;
use crate::text::str_eq;
use crate::labels::views;

verus! {

/// Whether some entry of `s` is keyed by `k`.
pub open spec fn has_key(s: Seq<(String, u64)>, k: Seq<char>) -> bool {
    exists|i: int| 0 <= i < s.len() && (#[trigger] s[i]).0@ == k
}

/// No two entries of `s` share a key.
pub open spec fn unique_keys(s: Seq<(String, u64)>) -> bool {
    forall|i: int, j: int|
        0 <= i < s.len() && 0 <= j < s.len() && i != j ==> (#[trigger] s[i]).0@ != (#[trigger] s[j]).0@
}

/// Entries of `s` are ordered by timestamp, newest first.
pub open spec fn newest_first(s: Seq<(String, u64)>) -> bool {
    forall|i: int, j: int| 0 <= i < j < s.len() ==> (#[trigger] s[i]).1 >= (#[trigger] s[j]).1
}

/// The repository → timestamp map that `s` holds.
pub open spec fn stamp_map(s: Seq<(String, u64)>) -> Map<Seq<char>, u64> {
    Map::new(
        |k: Seq<char>| has_key(s, k),
        |k: Seq<char>| s[choose|i: int| 0 <= i < s.len() && (#[trigger] s[i]).0@ == k].1,
    )
}

/// Whether `out` lists every key of `m` exactly once, most recent first.
pub open spec fn lists_newest_first(out: Seq<Seq<char>>, m: Map<Seq<char>, u64>) -> bool {
    &&& out.len() == m.dom().len()
    &&& forall|i: int| 0 <= i < out.len() ==> m.contains_key(#[trigger] out[i])
    &&& forall|k: Seq<char>| #[trigger] m.contains_key(k) ==> exists|i: int| 0 <= i < out.len() && out[i] == k
    &&& forall|i: int, j: int| 0 <= i < out.len() && 0 <= j < out.len() && i != j ==> #[trigger] out[i] != #[trigger] out[j]
    &&& forall|i: int, j: int| 0 <= i < j < out.len() ==> m[#[trigger] out[i]] >= m[#[trigger] out[j]]
}

pub proof fn lemma_lookup(s: Seq<(String, u64)>, i: int)
    requires
        unique_keys(s),
        0 <= i < s.len(),
    ensures
        stamp_map(s).contains_key(s[i].0@),
        stamp_map(s)[s[i].0@] == s[i].1,
{
    let k = s[i].0@;
    assert(has_key(s, k));
    let j = choose|j: int| 0 <= j < s.len() && (#[trigger] s[j]).0@ == k;
    assert(j == i);
}

pub proof fn lemma_remove(s: Seq<(String, u64)>, i: int)
    requires
        unique_keys(s),
        0 <= i < s.len(),
    ensures
        unique_keys(s.remove(i)),
        newest_first(s) ==> newest_first(s.remove(i)),
        stamp_map(s.remove(i)) == stamp_map(s).remove(s[i].0@),
{
    let t = s.remove(i);
    assert forall|a: int, b: int| 0 <= a < t.len() && 0 <= b < t.len() && a != b implies (#[trigger] t[a]).0@ != (#[trigger] t[b]).0@ by {
        let a2 = if a < i { a } else { a + 1 };
        let b2 = if b < i { b } else { b + 1 };
        assert(t[a] == s[a2]);
        assert(t[b] == s[b2]);
    }
    if newest_first(s) {
        assert forall|a: int, b: int| 0 <= a < b < t.len() implies (#[trigger] t[a]).1 >= (#[trigger] t[b]).1 by {
            let a2 = if a < i { a } else { a + 1 };
            let b2 = if b < i { b } else { b + 1 };
            assert(t[a] == s[a2]);
            assert(t[b] == s[b2]);
        }
    }
    let m = stamp_map(s).remove(s[i].0@);
    assert forall|k: Seq<char>| #[trigger] stamp_map(t).contains_key(k) <==> m.contains_key(k) by {
        if has_key(t, k) {
            let a = choose|a: int| 0 <= a < t.len() && (#[trigger] t[a]).0@ == k;
            let a2 = if a < i { a } else { a + 1 };
            assert(t[a] == s[a2]);
            assert(has_key(s, k));
        }
        if m.contains_key(k) {
            let a2 = choose|a: int| 0 <= a < s.len() && (#[trigger] s[a]).0@ == k;
            assert(a2 != i);
            let a = if a2 < i { a2 } else { a2 - 1 };
            assert(t[a] == s[a2]);
            assert(has_key(t, k));
        }
    }
    assert forall|k: Seq<char>| #[trigger] stamp_map(t).contains_key(k) implies stamp_map(t)[k] == m[k] by {
        let a = choose|a: int| 0 <= a < t.len() && (#[trigger] t[a]).0@ == k;
        let a2 = if a < i { a } else { a + 1 };
        assert(t[a] == s[a2]);
        lemma_lookup(t, a);
        lemma_lookup(s, a2);
    }
    assert(stamp_map(t) =~= m);
}

pub proof fn lemma_insert(s: Seq<(String, u64)>, p: int, e: (String, u64))
    requires
        unique_keys(s),
        !has_key(s, e.0@),
        0 <= p <= s.len(),
    ensures
        unique_keys(s.insert(p, e)),
        stamp_map(s.insert(p, e)) == stamp_map(s).insert(e.0@, e.1),
{
    let t = s.insert(p, e);
    assert forall|a: int, b: int| 0 <= a < t.len() && 0 <= b < t.len() && a != b implies (#[trigger] t[a]).0@ != (#[trigger] t[b]).0@ by {
        if a != p && b != p {
            let a2 = if a < p { a } else { a - 1 };
            let b2 = if b < p { b } else { b - 1 };
            assert(t[a] == s[a2]);
            assert(t[b] == s[b2]);
        } else if a == p {
            let b2 = if b < p { b } else { b - 1 };
            assert(t[b] == s[b2]);
        } else {
            let a2 = if a < p { a } else { a - 1 };
            assert(t[a] == s[a2]);
        }
    }
    let m = stamp_map(s).insert(e.0@, e.1);
    assert forall|k: Seq<char>| #[trigger] stamp_map(t).contains_key(k) <==> m.contains_key(k) by {
        if has_key(t, k) && k != e.0@ {
            let a = choose|a: int| 0 <= a < t.len() && (#[trigger] t[a]).0@ == k;
            assert(a != p);
            let a2 = if a < p { a } else { a - 1 };
            assert(t[a] == s[a2]);
            assert(has_key(s, k));
        }
        if k == e.0@ {
            assert(t[p] == e);
            assert(has_key(t, k));
        } else if m.contains_key(k) {
            let a2 = choose|a: int| 0 <= a < s.len() && (#[trigger] s[a]).0@ == k;
            let a = if a2 < p { a2 } else { a2 + 1 };
            assert(t[a] == s[a2]);
            assert(has_key(t, k));
        }
    }
    assert forall|k: Seq<char>| #[trigger] stamp_map(t).contains_key(k) implies stamp_map(t)[k] == m[k] by {
        let a = choose|a: int| 0 <= a < t.len() && (#[trigger] t[a]).0@ == k;
        lemma_lookup(t, a);
        if a == p {
            assert(t[p] == e);
        } else {
            let a2 = if a < p { a } else { a - 1 };
            assert(t[a] == s[a2]);
            lemma_lookup(s, a2);
        }
    }
    assert(stamp_map(t) =~= m);
}

pub proof fn lemma_dom(s: Seq<(String, u64)>)
    requires
        unique_keys(s),
    ensures
        stamp_map(s).dom().finite(),
        stamp_map(s).dom().len() == s.len(),
    decreases s.len(),
{
    if s.len() == 0 {
        assert(stamp_map(s).dom() =~= Set::empty());
    } else {
        let t = s.drop_last();
        assert(unique_keys(t)) by {
            assert forall|a: int, b: int| 0 <= a < t.len() && 0 <= b < t.len() && a != b implies (#[trigger] t[a]).0@ != (#[trigger] t[b]).0@ by {
                assert(t[a] == s[a]);
                assert(t[b] == s[b]);
            }
        }
        lemma_dom(t);
        let k = s.last().0@;
        assert(!has_key(t, k)) by {
            if has_key(t, k) {
                let a = choose|a: int| 0 <= a < t.len() && (#[trigger] t[a]).0@ == k;
                assert(t[a] == s[a]);
            }
        }
        assert forall|x: Seq<char>| #[trigger] stamp_map(s).dom().contains(x) <==> stamp_map(t).dom().insert(k).contains(x) by {
            if has_key(s, x) && x != k {
                let a = choose|a: int| 0 <= a < s.len() && (#[trigger] s[a]).0@ == x;
                assert(a != s.len() - 1);
                assert(t[a] == s[a]);
                assert(has_key(t, x));
            }
            if has_key(t, x) {
                let a = choose|a: int| 0 <= a < t.len() && (#[trigger] t[a]).0@ == x;
                assert(t[a] == s[a]);
                assert(has_key(s, x));
            }
            if x == k {
                assert(s[s.len() - 1].0@ == k);
                assert(has_key(s, x));
            }
        }
        assert(stamp_map(s).dom() =~= stamp_map(t).dom().insert(k));
    }
}

/// The sweep work-queue: repositories with un-pushed commits, and
/// repositories whose last sweep failed.
pub struct SyncQueue {
    dirty: Vec<(String, u64)>,
    retrying: Vec<(String, u64)>,
}

impl SyncQueue {
    #[verifier::type_invariant]
    spec fn well_formed(self) -> bool {
        &&& unique_keys(self.dirty@)
        &&& newest_first(self.dirty@)
        &&& unique_keys(self.retrying@)
        &&& newest_first(self.retrying@)
    }

    /// Repository → time of its most recent un-pushed commit.
    pub closed spec fn dirty_stamps(&self) -> Map<Seq<char>, u64> {
        stamp_map(self.dirty@)
    }

    /// Repository → time its last sweep failed.
    pub closed spec fn retry_stamps(&self) -> Map<Seq<char>, u64> {
        stamp_map(self.retrying@)
    }

    /// An empty queue.
    pub fn new() -> (q: SyncQueue)
        ensures
            q.dirty_stamps() == Map::<Seq<char>, u64>::empty(),
            q.retry_stamps() == Map::<Seq<char>, u64>::empty(),
    {
        let q = SyncQueue { dirty: Vec::new(), retrying: Vec::new() };
        assert(q.dirty_stamps() =~= Map::<Seq<char>, u64>::empty());
        assert(q.retry_stamps() =~= Map::<Seq<char>, u64>::empty());
        q
    }

    /// Record that `repo` has un-pushed local commits, the latest at `now`.
    pub fn mark_dirty(&mut self, repo: &str, now: u64)
        ensures
            final(self).dirty_stamps() == old(self).dirty_stamps().insert(repo@, now),
            final(self).retry_stamps() == old(self).retry_stamps(),
    {
        proof { use_type_invariant(&*self); }
        let mut dirty = Vec::new();
        std::mem::swap(&mut dirty, &mut self.dirty);
        upsert(&mut dirty, repo, now);
        self.dirty = dirty;
    }

    /// How many repositories have un-pushed local commits waiting. A
    /// repository awaiting a retry does not count.
    pub fn dirty_count(&self) -> (n: usize)
        ensures
            self.dirty_stamps().dom().finite(),
            n == self.dirty_stamps().dom().len(),
    {
        proof {
            use_type_invariant(self);
            lemma_dom(self.dirty@);
        }
        self.dirty.len()
    }

    /// Queue `repo` for a retry after a failed sweep at `now`. Does not
    /// mark it dirty.
    pub fn requeue(&mut self, repo: &str, now: u64)
        ensures
            final(self).retry_stamps() == old(self).retry_stamps().insert(repo@, now),
            final(self).dirty_stamps() == old(self).dirty_stamps(),
    {
        proof { use_type_invariant(&*self); }
        let mut retrying = Vec::new();
        std::mem::swap(&mut retrying, &mut self.retrying);
        upsert(&mut retrying, repo, now);
        self.retrying = retrying;
    }

    /// Drop `repo` from both sets, leaving every other entry alone.
    pub fn forget(&mut self, repo: &str)
        ensures
            final(self).dirty_stamps() == old(self).dirty_stamps().remove(repo@),
            final(self).retry_stamps() == old(self).retry_stamps().remove(repo@),
    {
        proof { use_type_invariant(&*self); }
        let mut dirty = Vec::new();
        std::mem::swap(&mut dirty, &mut self.dirty);
        remove_key(&mut dirty, repo);
        self.dirty = dirty;
        let mut retrying = Vec::new();
        std::mem::swap(&mut retrying, &mut self.retrying);
        remove_key(&mut retrying, repo);
        self.retrying = retrying;
    }

    /// Every repository owed a sweep — the dirty ones first, most recent
    /// commit first, then the ones awaiting a retry, most recent failure
    /// first. Both sets are emptied.
    pub fn drain_pending(&mut self) -> (out: Vec<String>)
        ensures
            final(self).dirty_stamps() == Map::<Seq<char>, u64>::empty(),
            final(self).retry_stamps() == Map::<Seq<char>, u64>::empty(),
            ({
                let d = old(self).dirty_stamps().dom().len() as int;
                let o = views(out@);
                &&& o.len() == d + old(self).retry_stamps().dom().len()
                &&& lists_newest_first(o.subrange(0, d), old(self).dirty_stamps())
                &&& lists_newest_first(o.subrange(d, o.len() as int), old(self).retry_stamps())
            }),
    {
        proof { use_type_invariant(&*self); }
        let mut dirty = Vec::new();
        std::mem::swap(&mut dirty, &mut self.dirty);
        let mut retrying = Vec::new();
        std::mem::swap(&mut retrying, &mut self.retrying);
        proof {
            assert(self.dirty_stamps() =~= Map::<Seq<char>, u64>::empty());
            assert(self.retry_stamps() =~= Map::<Seq<char>, u64>::empty());
        }
        let mut out = keys_in_order(&dirty);
        let mut rest = keys_in_order(&retrying);
        let ghost a = views(out@);
        let ghost b = views(rest@);
        out.append(&mut rest);
        proof {
            assert(views(out@) =~= a + b);
            assert(views(out@).subrange(0, a.len() as int) =~= a);
            assert(views(out@).subrange(a.len() as int, views(out@).len() as int) =~= b);
        }
        out
    }
}

/// The retry set after a drain's sweeps: every repository whose sweep
/// failed is requeued at `now`.
pub open spec fn with_retries(m: Map<Seq<char>, u64>, repos: Seq<Seq<char>>, failed: Seq<bool>, now: u64) -> Map<Seq<char>, u64>
    decreases repos.len(),
{
    if repos.len() == 0 {
        m
    } else {
        let rest = with_retries(m, repos.drop_last(), failed.drop_last(), now);
        if failed.len() == repos.len() && failed.last() {
            rest.insert(repos.last(), now)
        } else {
            rest
        }
    }
}

impl SyncQueue {
    /// Requeue, at `now`, every repository of a drain whose sweep did not
    /// fully reconcile (`failed[i]` for `repos[i]`), so the next beat
    /// retries it; the dirty set is left alone.
    pub fn requeue_failed(&mut self, repos: &Vec<String>, failed: &Vec<bool>, now: u64)
        requires
            repos@.len() == failed@.len(),
        ensures
            final(self).retry_stamps() == with_retries(old(self).retry_stamps(), views(repos@), failed@, now),
            final(self).dirty_stamps() == old(self).dirty_stamps(),
            forall|i: int|
                0 <= i < repos@.len() && #[trigger] failed@[i] ==> final(self).retry_stamps().contains_key(repos@[i]@)
                    && final(self).retry_stamps()[repos@[i]@] == now,
            forall|k: Seq<char>|
                #[trigger] final(self).retry_stamps().contains_key(k) <==> (old(self).retry_stamps().contains_key(k)
                    || exists|i: int| 0 <= i < repos@.len() && failed@[i] && (#[trigger] repos@[i])@ == k),
            forall|k: Seq<char>|
                old(self).retry_stamps().contains_key(k) && !(exists|i: int|
                    0 <= i < repos@.len() && failed@[i] && (#[trigger] repos@[i])@ == k) ==> #[trigger] final(self).retry_stamps()[k]
                    == old(self).retry_stamps()[k],
    {
        let mut i: usize = 0;
        while i < repos.len()
            invariant
                repos@.len() == failed@.len(),
                i <= repos@.len(),
                self.dirty_stamps() == old(self).dirty_stamps(),
                self.retry_stamps() == with_retries(
                    old(self).retry_stamps(),
                    views(repos@).subrange(0, i as int),
                    failed@.subrange(0, i as int),
                    now,
                ),
            decreases repos@.len() - i,
        {
            proof {
                let vr = views(repos@).subrange(0, i + 1);
                let vf = failed@.subrange(0, i + 1);
                assert(vr.drop_last() =~= views(repos@).subrange(0, i as int));
                assert(vf.drop_last() =~= failed@.subrange(0, i as int));
                assert(vr.last() == repos@[i as int]@);
            }
            if failed[i] {
                self.requeue(repos[i].as_str(), now);
            }
            i = i + 1;
        }
        proof {
            assert(views(repos@).subrange(0, repos@.len() as int) =~= views(repos@));
            assert(failed@.subrange(0, repos@.len() as int) =~= failed@);
            law_failed_sweeps_are_retried(old(self).retry_stamps(), views(repos@), failed@, now);
            let vr = views(repos@);
            assert forall|k: Seq<char>| #[trigger] self.retry_stamps().contains_key(k) <==> (old(self).retry_stamps().contains_key(k)
                || exists|i: int| 0 <= i < repos@.len() && failed@[i] && (#[trigger] repos@[i])@ == k) by {
                if exists|i: int| 0 <= i < repos@.len() && failed@[i] && (#[trigger] repos@[i])@ == k {
                    let i = choose|i: int| 0 <= i < repos@.len() && failed@[i] && (#[trigger] repos@[i])@ == k;
                    assert(vr[i] == k);
                }
                if exists|i: int| 0 <= i < vr.len() && failed@[i] && #[trigger] vr[i] == k {
                    let i = choose|i: int| 0 <= i < vr.len() && failed@[i] && #[trigger] vr[i] == k;
                    assert(repos@[i]@ == k);
                }
            }
            assert forall|k: Seq<char>|
                old(self).retry_stamps().contains_key(k) && !(exists|i: int|
                    0 <= i < repos@.len() && failed@[i] && (#[trigger] repos@[i])@ == k) implies #[trigger] self.retry_stamps()[k]
                == old(self).retry_stamps()[k] by {
                if exists|i: int| 0 <= i < vr.len() && failed@[i] && #[trigger] vr[i] == k {
                    let i = choose|i: int| 0 <= i < vr.len() && failed@[i] && #[trigger] vr[i] == k;
                    assert(repos@[i]@ == k);
                }
            }
            assert forall|i: int| 0 <= i < repos@.len() && #[trigger] failed@[i] implies self.retry_stamps().contains_key(
                repos@[i]@,
            ) && self.retry_stamps()[repos@[i]@] == now by {
                assert(views(repos@)[i] == repos@[i]@);
            }
        }
    }
}

/// Every failed sweep is retried, and nothing else changes: after the
/// requeue, each repository whose sweep failed is in the retry set stamped
/// `now` (wherever it stands in the drain, the first included); the retry
/// set gains exactly the failed repositories; and every other entry keeps
/// its stamp.
pub proof fn law_failed_sweeps_are_retried(m: Map<Seq<char>, u64>, repos: Seq<Seq<char>>, failed: Seq<bool>, now: u64)
    requires
        failed.len() == repos.len(),
    ensures
        forall|i: int|
            0 <= i < repos.len() && #[trigger] failed[i] ==> with_retries(m, repos, failed, now).contains_key(repos[i])
                && with_retries(m, repos, failed, now)[repos[i]] == now,
        forall|k: Seq<char>|
            #[trigger] with_retries(m, repos, failed, now).contains_key(k) <==> (m.contains_key(k) || exists|i: int|
                0 <= i < repos.len() && failed[i] && #[trigger] repos[i] == k),
        forall|k: Seq<char>|
            m.contains_key(k) && !(exists|i: int| 0 <= i < repos.len() && failed[i] && #[trigger] repos[i] == k)
                ==> #[trigger] with_retries(m, repos, failed, now)[k] == m[k],
    decreases repos.len(),
{
    if repos.len() > 0 {
        let r0 = repos.drop_last();
        let f0 = failed.drop_last();
        let n = repos.len() - 1;
        law_failed_sweeps_are_retried(m, r0, f0, now);
        let rest = with_retries(m, r0, f0, now);
        let w = with_retries(m, repos, failed, now);
        assert forall|i: int| 0 <= i < repos.len() && #[trigger] failed[i] implies w.contains_key(repos[i]) && w[repos[i]]
            == now by {
            if i < n && !(failed[n] && repos[n] == repos[i]) {
                assert(f0[i] == failed[i] && r0[i] == repos[i]);
            }
        }
        assert forall|k: Seq<char>| #[trigger] w.contains_key(k) <==> (m.contains_key(k) || exists|i: int|
            0 <= i < repos.len() && failed[i] && #[trigger] repos[i] == k) by {
            if exists|i: int| 0 <= i < r0.len() && f0[i] && #[trigger] r0[i] == k {
                let i = choose|i: int| 0 <= i < r0.len() && f0[i] && #[trigger] r0[i] == k;
                assert(failed[i] && repos[i] == k);
            }
            if exists|i: int| 0 <= i < repos.len() && failed[i] && #[trigger] repos[i] == k {
                let i = choose|i: int| 0 <= i < repos.len() && failed[i] && #[trigger] repos[i] == k;
                if i < n {
                    assert(f0[i] && r0[i] == k);
                }
            }
        }
        assert forall|k: Seq<char>|
            m.contains_key(k) && !(exists|i: int| 0 <= i < repos.len() && failed[i] && #[trigger] repos[i] == k)
                implies #[trigger] w[k] == m[k] by {
            if exists|i: int| 0 <= i < r0.len() && f0[i] && #[trigger] r0[i] == k {
                let i = choose|i: int| 0 <= i < r0.len() && f0[i] && #[trigger] r0[i] == k;
                assert(failed[i] && repos[i] == k);
            }
            if failed[n] && repos[n] == k {
                assert(failed[n] && repos[n] == k);
            }
        }
    }
}

impl Default for SyncQueue {
    fn default() -> (q: SyncQueue)
        ensures
            q.dirty_stamps() == Map::<Seq<char>, u64>::empty(),
            q.retry_stamps() == Map::<Seq<char>, u64>::empty(),
    {
        SyncQueue::new()
    }
}

/// The position of `key` in `v`, if any.
fn find_key(v: &Vec<(String, u64)>, key: &str) -> (r: Option<usize>)
    ensures
        match r {
            Some(i) => i < v.len() && v@[i as int].0@ == key@,
            None => !has_key(v@, key@),
        },
{
    let mut i: usize = 0;
    while i < v.len()
        invariant
            i <= v.len(),
            forall|j: int| 0 <= j < i ==> (#[trigger] v@[j]).0@ != key@,
        decreases v.len() - i,
    {
        if str_eq(v[i].0.as_str(), key) {
            return Some(i);
        }
        i = i + 1;
    }
    None
}

/// Remove the entry keyed by `key`, if present.
fn remove_key(v: &mut Vec<(String, u64)>, key: &str)
    requires
        unique_keys(old(v)@),
        newest_first(old(v)@),
    ensures
        unique_keys(final(v)@),
        newest_first(final(v)@),
        stamp_map(final(v)@) == stamp_map(old(v)@).remove(key@),
{
    match find_key(v, key) {
        Some(i) => {
            proof { lemma_remove(v@, i as int); }
            v.remove(i);
        },
        None => {
            assert(stamp_map(v@) =~= stamp_map(v@).remove(key@));
        },
    }
}

/// Set `key`'s timestamp to `now`, keeping the entries newest first.
fn upsert(v: &mut Vec<(String, u64)>, key: &str, now: u64)
    requires
        unique_keys(old(v)@),
        newest_first(old(v)@),
    ensures
        unique_keys(final(v)@),
        newest_first(final(v)@),
        stamp_map(final(v)@) == stamp_map(old(v)@).insert(key@, now),
{
    let ghost before = v@;
    remove_key(v, key);
    let ghost removed = v@;
    assert(!has_key(removed, key@)) by {
        if has_key(removed, key@) {
            let a = choose|a: int| 0 <= a < removed.len() && (#[trigger] removed[a]).0@ == key@;
            lemma_lookup(removed, a);
        }
    }
    let mut p: usize = 0;
    while p < v.len() && v[p].1 >= now
        invariant
            v@ == removed,
            p <= v.len(),
            forall|j: int| 0 <= j < p ==> (#[trigger] v@[j]).1 >= now,
        decreases v.len() - p,
    {
        p = p + 1;
    }
    let entry = (String::from_str(key), now);
    proof {
        lemma_insert(removed, p as int, entry);
        let t = removed.insert(p as int, entry);
        assert forall|a: int, b: int| 0 <= a < b < t.len() implies (#[trigger] t[a]).1 >= (#[trigger] t[b]).1 by {
            if b < p {
                assert(t[a] == removed[a]);
                assert(t[b] == removed[b]);
            } else if b == p {
                assert(t[a] == removed[a]);
            } else if a == p {
                assert(t[b] == removed[b - 1]);
                if b - 1 >= p {
                    assert(!(removed[p as int].1 >= now) || p == removed.len());
                    if p < removed.len() {
                        assert(removed[p as int].1 >= removed[b - 1].1 || b - 1 == p);
                    }
                }
            } else if a < p {
                assert(t[a] == removed[a]);
                assert(t[b] == removed[b - 1]);
            } else {
                assert(t[a] == removed[a - 1]);
                assert(t[b] == removed[b - 1]);
            }
        }
    }
    v.insert(p, entry);
}

/// The keys of `v`, in order.
fn keys_in_order(v: &Vec<(String, u64)>) -> (out: Vec<String>)
    requires
        unique_keys(v@),
        newest_first(v@),
    ensures
        lists_newest_first(views(out@), stamp_map(v@)),
{
    let mut out: Vec<String> = Vec::new();
    let mut i: usize = 0;
    while i < v.len()
        invariant
            i <= v.len(),
            out.len() == i,
            forall|j: int| 0 <= j < i ==> (#[trigger] out@[j])@ == v@[j].0@,
        decreases v.len() - i,
    {
        out.push(v[i].0.clone());
        i = i + 1;
    }
    proof {
        let o = views(out@);
        let m = stamp_map(v@);
        lemma_dom(v@);
        assert forall|j: int| 0 <= j < o.len() implies m.contains_key(#[trigger] o[j]) && m[o[j]] == v@[j].1 by {
            lemma_lookup(v@, j);
        }
        assert forall|k: Seq<char>| #[trigger] m.contains_key(k) implies exists|j: int| 0 <= j < o.len() && o[j] == k by {
            let j = choose|j: int| 0 <= j < v@.len() && (#[trigger] v@[j]).0@ == k;
            assert(o[j] == k);
        }
        assert forall|a: int, b: int| 0 <= a < o.len() && 0 <= b < o.len() && a != b implies #[trigger] o[a] != #[trigger] o[b] by {
            assert(o[a] == v@[a].0@);
            assert(o[b] == v@[b].0@);
        }
        assert forall|a: int, b: int| 0 <= a < b < o.len() implies m[#[trigger] o[a]] >= m[#[trigger] o[b]] by {
            lemma_lookup(v@, a);
            lemma_lookup(v@, b);
        }
    }
    out
}

/// What a drain hands out for a queue holding `dirty` and `retry`: the
/// dirty repositories, most recent commit first, then the ones awaiting a
/// retry, most recent failure first.
pub open spec fn drained_from(out: Seq<Seq<char>>, dirty: Map<Seq<char>, u64>, retry: Map<Seq<char>, u64>) -> bool {
    let d = dirty.dom().len() as int;
    &&& out.len() == d + retry.dom().len()
    &&& lists_newest_first(out.subrange(0, d), dirty)
    &&& lists_newest_first(out.subrange(d, out.len() as int), retry)
}

/// A drain hands out exactly the repositories owed a sweep: every dirty
/// or retrying repository, and nothing else.
pub proof fn law_drain_takes_every_pending_repo(out: Seq<Seq<char>>, dirty: Map<Seq<char>, u64>, retry: Map<Seq<char>, u64>)
    requires
        drained_from(out, dirty, retry),
    ensures
        forall|k: Seq<char>| out.contains(k) <==> (dirty.contains_key(k) || retry.contains_key(k)),
{
    let d = dirty.dom().len() as int;
    let a = out.subrange(0, d);
    let b = out.subrange(d, out.len() as int);
    assert forall|k: Seq<char>| out.contains(k) <==> (dirty.contains_key(k) || retry.contains_key(k)) by {
        if out.contains(k) {
            let i = choose|i: int| 0 <= i < out.len() && out[i] == k;
            if i < d {
                assert(a[i] == k);
            } else {
                assert(b[i - d] == k);
            }
        }
        if dirty.contains_key(k) {
            let i = choose|i: int| 0 <= i < a.len() && a[i] == k;
            assert(out[i] == k);
        } else if retry.contains_key(k) {
            let i = choose|i: int| 0 <= i < b.len() && b[i] == k;
            assert(out[i + d] == k);
        }
    }
}

/// Un-pushed local work has push priority over a retry: every dirty
/// repository is handed out before every repository that is only
/// awaiting a retry.
pub proof fn law_dirty_before_retries(out: Seq<Seq<char>>, dirty: Map<Seq<char>, u64>, retry: Map<Seq<char>, u64>, i: int, j: int)
    requires
        drained_from(out, dirty, retry),
        0 <= i < out.len(),
        0 <= j < out.len(),
        dirty.contains_key(out[i]),
        !dirty.contains_key(out[j]),
    ensures
        exists|k: int| 0 <= k < j && out[k] == out[i],
{
    let d = dirty.dom().len() as int;
    let a = out.subrange(0, d);
    if j < d {
        assert(a[j] == out[j]);
        assert(dirty.contains_key(a[j]));
    }
    let k = choose|k: int| 0 <= k < a.len() && a[k] == out[i];
    assert(out[k] == out[i]);
}

/// Among the dirty repositories, the one committed to most recently
/// syncs first.
pub proof fn law_most_recent_commit_first(out: Seq<Seq<char>>, dirty: Map<Seq<char>, u64>, retry: Map<Seq<char>, u64>, i: int, j: int)
    requires
        drained_from(out, dirty, retry),
        0 <= i < j < dirty.dom().len(),
    ensures
        dirty[out[i]] >= dirty[out[j]],
{
    let a = out.subrange(0, dirty.dom().len() as int);
    assert(a[i] == out[i] && a[j] == out[j]);
}

/// A removed repository is never resurrected by a leftover stamp: once
/// forgotten, no later drain hands it out unless something marks or
/// requeues it again.
pub proof fn law_forgotten_repo_is_not_drained(
    dirty: Map<Seq<char>, u64>,
    retry: Map<Seq<char>, u64>,
    repo: Seq<char>,
    out: Seq<Seq<char>>,
)
    requires
        drained_from(out, dirty.remove(repo), retry.remove(repo)),
    ensures
        !out.contains(repo),
{
    law_drain_takes_every_pending_repo(out, dirty.remove(repo), retry.remove(repo));
}

} // verus!
