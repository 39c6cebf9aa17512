//! A small name-keyed table: entries keyed by a string name, at most one
//! entry per name, kept in insertion order. The repository configuration
//! uses it for its remotes and branches.

use vstd::prelude::*;
use crate::text::str_eq;

verus! {

/// Whether some entry of `s` is named `k`.
pub open spec fn names<V>(s: Seq<(String, V)>, k: Seq<char>) -> bool {
    exists|i: int| 0 <= i < s.len() && (#[trigger] s[i]).0@ == k
}

/// No two entries of `s` share a name.
pub open spec fn distinct_names<V>(s: Seq<(String, V)>) -> bool {
    forall|i: int, j: int|
        0 <= i < s.len() && 0 <= j < s.len() && i != j ==> (#[trigger] s[i]).0@ != (#[trigger] s[j]).0@
}

/// The name → value map that `s` holds.
pub open spec fn name_map<V>(s: Seq<(String, V)>) -> Map<Seq<char>, V> {
    Map::new(
        |k: Seq<char>| names(s, k),
        |k: Seq<char>| s[choose|i: int| 0 <= i < s.len() && (#[trigger] s[i]).0@ == k].1,
    )
}

pub proof fn lemma_name_lookup<V>(s: Seq<(String, V)>, i: int)
    requires
        distinct_names(s),
        0 <= i < s.len(),
    ensures
        name_map(s).contains_key(s[i].0@),
        name_map(s)[s[i].0@] == s[i].1,
{
    let k = s[i].0@;
    assert(names(s, k));
    let j = choose|j: int| 0 <= j < s.len() && (#[trigger] s[j]).0@ == k;
    assert(j == i);
}

pub proof fn lemma_name_dom<V>(s: Seq<(String, V)>)
    requires
        distinct_names(s),
    ensures
        name_map(s).dom().finite(),
        name_map(s).dom().len() == s.len(),
    decreases s.len(),
{
    if s.len() == 0 {
        assert(name_map(s).dom() =~= Set::empty());
    } else {
        let t = s.drop_last();
        assert(distinct_names(t)) by {
            assert forall|a: int, b: int| 0 <= a < t.len() && 0 <= b < t.len() && a != b implies (#[trigger] t[a]).0@ != (#[trigger] t[b]).0@ by {
                assert(t[a] == s[a]);
                assert(t[b] == s[b]);
            }
        }
        lemma_name_dom(t);
        let k = s.last().0@;
        assert(!names(t, k)) by {
            if names(t, k) {
                let a = choose|a: int| 0 <= a < t.len() && (#[trigger] t[a]).0@ == k;
                assert(t[a] == s[a]);
            }
        }
        assert forall|x: Seq<char>| #[trigger] name_map(s).dom().contains(x) <==> name_map(t).dom().insert(k).contains(x) by {
            if names(s, x) && x != k {
                let a = choose|a: int| 0 <= a < s.len() && (#[trigger] s[a]).0@ == x;
                assert(a != s.len() - 1);
                assert(t[a] == s[a]);
                assert(names(t, x));
            }
            if names(t, x) {
                let a = choose|a: int| 0 <= a < t.len() && (#[trigger] t[a]).0@ == x;
                assert(t[a] == s[a]);
                assert(names(s, x));
            }
            if x == k {
                assert(s[s.len() - 1].0@ == k);
                assert(names(s, x));
            }
        }
        assert(name_map(s).dom() =~= name_map(t).dom().insert(k));
    }
}

/// Entries keyed by name, at most one per name, in insertion order.
#[derive(Clone, Debug)]
pub struct NamedMap<V> {
    entries: Vec<(String, V)>,
}

impl<V> NamedMap<V> {
    /// The entries, in insertion order.
    pub closed spec fn entries(&self) -> Seq<(String, V)> {
        self.entries@
    }

    /// No two entries share a name.
    pub open spec fn wf(&self) -> bool {
        distinct_names(self.entries())
    }

    /// The name → value map.
    pub open spec fn as_map(&self) -> Map<Seq<char>, V> {
        name_map(self.entries())
    }

    /// An empty table.
    pub fn new() -> (m: Self)
        ensures
            m.wf(),
            m.entries() == Seq::<(String, V)>::empty(),
            m.as_map() == Map::<Seq<char>, V>::empty(),
    {
        let m = NamedMap { entries: Vec::new() };
        assert(m.as_map() =~= Map::<Seq<char>, V>::empty());
        m
    }

    /// How many entries the table holds.
    pub fn len(&self) -> (n: usize)
        requires
            self.wf(),
        ensures
            n == self.entries().len(),
            n == self.as_map().dom().len(),
            self.as_map().dom().finite(),
    {
        proof { lemma_name_dom(self.entries()); }
        self.entries.len()
    }

    /// Whether the table is empty.
    pub fn is_empty(&self) -> (b: bool)
        requires
            self.wf(),
        ensures
            b == (self.entries().len() == 0),
            b == (self.as_map().dom().len() == 0),
    {
        proof { lemma_name_dom(self.entries()); }
        self.entries.len() == 0
    }

    /// The name of the `i`-th entry.
    pub fn name_at(&self, i: usize) -> (r: &String)
        requires
            i < self.entries().len(),
        ensures
            *r == self.entries()[i as int].0,
    {
        &self.entries[i].0
    }

    /// The value of the `i`-th entry.
    pub fn value_at(&self, i: usize) -> (r: &V)
        requires
            i < self.entries().len(),
        ensures
            *r == self.entries()[i as int].1,
    {
        &self.entries[i].1
    }

    /// The position of the entry named `name`, if any.
    pub fn position(&self, name: &str) -> (r: Option<usize>)
        ensures
            match r {
                Some(i) => i < self.entries().len() && self.entries()[i as int].0@ == name@,
                None => !names(self.entries(), name@),
            },
    {
        let mut i: usize = 0;
        while i < self.entries.len()
            invariant
                i <= self.entries@.len(),
                forall|j: int| 0 <= j < i ==> (#[trigger] self.entries@[j]).0@ != name@,
            decreases self.entries@.len() - i,
        {
            if str_eq(self.entries[i].0.as_str(), name) {
                return Some(i);
            }
            i = i + 1;
        }
        None
    }

    /// The value named `name`, if any.
    pub fn get(&self, name: &str) -> (r: Option<&V>)
        requires
            self.wf(),
        ensures
            match r {
                Some(v) => self.as_map().contains_key(name@) && self.as_map()[name@] == *v,
                None => !self.as_map().contains_key(name@),
            },
    {
        match self.position(name) {
            Some(i) => {
                proof { lemma_name_lookup(self.entries(), i as int); }
                Some(&self.entries[i].1)
            },
            None => None,
        }
    }

    /// Whether an entry is named `name`.
    pub fn contains_key(&self, name: &str) -> (b: bool)
        requires
            self.wf(),
        ensures
            b == self.as_map().contains_key(name@),
    {
        self.position(name).is_some()
    }

    /// Add the entry `name → value`, replacing the value of an existing
    /// entry of that name in place.
    pub fn insert(&mut self, name: String, value: V)
        requires
            old(self).wf(),
        ensures
            final(self).wf(),
            final(self).as_map() == old(self).as_map().insert(name@, value),
    {
        let ghost s = self.entries@;
        match self.position(name.as_str()) {
            Some(i) => {
                let ghost k = name@;
                self.entries.set(i, (name, value));
                proof {
                    let t = self.entries@;
                    assert(t == s.update(i as int, t[i as int]));
                    assert forall|a: int, b: int| 0 <= a < t.len() && 0 <= b < t.len() && a != b implies (#[trigger] t[a]).0@ != (#[trigger] t[b]).0@ by {
                        if a != i && b != i {
                            assert(t[a] == s[a]);
                            assert(t[b] == s[b]);
                        } else if a == i {
                            assert(t[b] == s[b]);
                        } else {
                            assert(t[a] == s[a]);
                        }
                    }
                    let m = name_map(s).insert(k, value);
                    assert forall|x: Seq<char>| #[trigger] name_map(t).contains_key(x) <==> m.contains_key(x) by {
                        if names(t, x) {
                            let a = choose|a: int| 0 <= a < t.len() && (#[trigger] t[a]).0@ == x;
                            if a != i {
                                assert(t[a] == s[a]);
                            }
                        }
                        if names(s, x) {
                            let a = choose|a: int| 0 <= a < s.len() && (#[trigger] s[a]).0@ == x;
                            if a != i {
                                assert(t[a] == s[a]);
                            } else {
                                assert(t[a].0@ == x);
                            }
                        }
                        if x == k {
                            assert(t[i as int].0@ == x);
                        }
                    }
                    assert forall|x: Seq<char>| #[trigger] name_map(t).contains_key(x) implies name_map(t)[x] == m[x] by {
                        let a = choose|a: int| 0 <= a < t.len() && (#[trigger] t[a]).0@ == x;
                        lemma_name_lookup(t, a);
                        if a != i {
                            assert(t[a] == s[a]);
                            lemma_name_lookup(s, a);
                        }
                    }
                    assert(name_map(t) =~= m);
                }
            },
            None => {
                let ghost k = name@;
                self.entries.push((name, value));
                proof {
                    let t = self.entries@;
                    assert forall|a: int, b: int| 0 <= a < t.len() && 0 <= b < t.len() && a != b implies (#[trigger] t[a]).0@ != (#[trigger] t[b]).0@ by {
                        if a < s.len() && b < s.len() {
                            assert(t[a] == s[a]);
                            assert(t[b] == s[b]);
                        } else if a < s.len() {
                            assert(t[a] == s[a]);
                        } else {
                            assert(t[b] == s[b]);
                        }
                    }
                    let m = name_map(s).insert(k, value);
                    assert forall|x: Seq<char>| #[trigger] name_map(t).contains_key(x) <==> m.contains_key(x) by {
                        if names(t, x) {
                            let a = choose|a: int| 0 <= a < t.len() && (#[trigger] t[a]).0@ == x;
                            if a < s.len() {
                                assert(t[a] == s[a]);
                            }
                        }
                        if names(s, x) {
                            let a = choose|a: int| 0 <= a < s.len() && (#[trigger] s[a]).0@ == x;
                            assert(t[a] == s[a]);
                        }
                        if x == k {
                            assert(t[s.len() as int].0@ == x);
                        }
                    }
                    assert forall|x: Seq<char>| #[trigger] name_map(t).contains_key(x) implies name_map(t)[x] == m[x] by {
                        let a = choose|a: int| 0 <= a < t.len() && (#[trigger] t[a]).0@ == x;
                        lemma_name_lookup(t, a);
                        if a < s.len() {
                            assert(t[a] == s[a]);
                            lemma_name_lookup(s, a);
                        }
                    }
                    assert(name_map(t) =~= m);
                }
            },
        }
    }
}

} // verus!
