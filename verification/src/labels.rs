//! Display labels for spaces: the untitled-label picker used when a space is
//! created without a typed name, and the name a create or rename settles on.

use vstd::prelude::*;
use crate::text::{
    all_ws, chars_eq, digit_char, chars_of, decimal, has_prefix, parse_u64, parsed_u64, push_chars, starts_with,
    trim_chars, trimmed,
};

verus! {

/// `Untitled`, the default display label of a space.
pub open spec fn untitled() -> Seq<char> {
    seq!['U', 'n', 't', 'i', 't', 'l', 'e', 'd']
}

/// `Untitled ` — the prefix of a numbered untitled label.
pub open spec fn untitled_space() -> Seq<char> {
    untitled().push(' ')
}

/// The ordinal an existing label occupies in the untitled sequence: `1` for
/// a bare `Untitled`, `n` for `Untitled <n>` with `n >= 2`, nothing for any
/// other label. Surrounding whitespace is ignored.
pub open spec fn label_ordinal(label: Seq<char>) -> Option<u64> {
    let t = trimmed(label);
    if t == untitled() {
        Some(1)
    } else if has_prefix(t, untitled_space()) {
        match parsed_u64(t.subrange(9, t.len() as int)) {
            Some(n) => if n >= 2 {
                Some(n)
            } else {
                None
            },
            None => None,
        }
    } else {
        None
    }
}

/// Whether some label in `labels` occupies ordinal `k`.
pub open spec fn ordinal_taken(labels: Seq<Seq<char>>, k: u64) -> bool {
    exists|i: int| 0 <= i < labels.len() && label_ordinal(#[trigger] labels[i]) == Some(k)
}

/// The label that occupies ordinal `k`.
pub open spec fn untitled_label(k: nat) -> Seq<char> {
    if k == 1 {
        untitled()
    } else {
        untitled_space() + decimal(k)
    }
}

/// The views of a list of strings.
pub open spec fn views(v: Seq<String>) -> Seq<Seq<char>> {
    v.map_values(|s: String| s@)
}

/// The label `next_untitled_label` picks: the one at the smallest ordinal
/// that no label in `labels` occupies.
pub open spec fn is_next_untitled(labels: Seq<Seq<char>>, r: Seq<char>) -> bool {
    exists|k: u64|
        k >= 1 && !ordinal_taken(labels, k) && (forall|m: u64|
            1 <= m < k ==> ordinal_taken(labels, m)) && r == untitled_label(k as nat)
}

/// How many entries of `s` are set.
pub open spec fn count_set(s: Seq<bool>) -> nat
    decreases s.len(),
{
    if s.len() == 0 {
        0
    } else {
        count_set(s.drop_last()) + if s.last() {
            1nat
        } else {
            0nat
        }
    }
}

proof fn lemma_count_set_update(s: Seq<bool>, i: int)
    requires
        0 <= i < s.len(),
        !s[i],
    ensures
        count_set(s.update(i, true)) == count_set(s) + 1,
    decreases s.len(),
{
    let u = s.update(i, true);
    if i == s.len() - 1 {
        assert(u.drop_last() =~= s.drop_last());
    } else {
        assert(u.drop_last() =~= s.drop_last().update(i, true));
        lemma_count_set_update(s.drop_last(), i);
    }
}

proof fn lemma_count_set_tail(s: Seq<bool>, lo: int)
    requires
        0 <= lo <= s.len(),
        forall|k: int| lo <= k < s.len() ==> #[trigger] s[k],
    ensures
        count_set(s) >= s.len() - lo,
    decreases s.len(),
{
    if s.len() > lo {
        lemma_count_set_tail(s.drop_last(), lo);
    }
}

fn digit(d: u64) -> (c: char)
    requires
        d < 10,
    ensures
        c == digit_char(d as nat),
{
    match d {
        0 => '0',
        1 => '1',
        2 => '2',
        3 => '3',
        4 => '4',
        5 => '5',
        6 => '6',
        7 => '7',
        8 => '8',
        _ => '9',
    }
}

/// The decimal digits of `n`.
pub fn decimal_chars(n: u64) -> (v: Vec<char>)
    ensures
        v@ == decimal(n as nat),
    decreases n,
{
    if n < 10 {
        let v = vec![digit(n)];
        assert(v@ =~= seq![digit_char(n as nat)]);
        v
    } else {
        let mut v = decimal_chars(n / 10);
        v.push(digit(n % 10));
        v
    }
}

fn untitled_chars() -> (v: Vec<char>)
    ensures
        v@ == untitled(),
{
    let v = vec!['U', 'n', 't', 'i', 't', 'l', 'e', 'd'];
    assert(v@ =~= untitled());
    v
}

/// The ordinal `label` occupies in the untitled sequence.
pub fn ordinal_of(label: &str) -> (r: Option<u64>)
    ensures
        r == label_ordinal(label@),
{
    let chars = chars_of(label);
    let t = trim_chars(&chars);
    let bare = untitled_chars();
    if chars_eq(&t, &bare) {
        return Some(1);
    }
    let mut prefix = untitled_chars();
    prefix.push(' ');
    assert(prefix@ =~= untitled_space());
    if !starts_with(&t, &prefix) {
        return None;
    }
    match parse_u64(&t, 9) {
        Some(n) => if n >= 2 {
            Some(n)
        } else {
            None
        },
        None => None,
    }
}

/// The rendered label at ordinal `k`.
pub fn untitled_label_text(k: u64) -> (r: String)
    requires
        k >= 1,
    ensures
        r@ == untitled_label(k as nat),
{
    let mut r = String::new();
    let mut head = untitled_chars();
    if k == 1 {
        push_chars(&mut r, &head);
        assert(r@ =~= untitled());
    } else {
        head.push(' ');
        let digits = decimal_chars(k);
        push_chars(&mut r, &head);
        push_chars(&mut r, &digits);
        assert(r@ =~= untitled_space() + decimal(k as nat));
    }
    r
}

/// Pick the first free untitled label: `Untitled`, then `Untitled 2`,
/// `Untitled 3`, … — the smallest ordinal no existing label already uses.
/// Only exact `Untitled` / `Untitled <n>` labels (after trimming) count as
/// taken; anything else is ignored.
pub fn next_untitled_label(existing: Vec<String>) -> (r: String)
    requires
        existing.len() + 2 <= usize::MAX,
    ensures
        is_next_untitled(views(existing@), r@),
{
    let ghost labels = views(existing@);
    let n = existing.len();
    let size = n + 2;
    let mut present: Vec<bool> = Vec::new();
    while present.len() < size
        invariant
            present.len() <= size,
            forall|k: int| 0 <= k < present.len() ==> !#[trigger] present@[k],
        decreases size - present.len(),
    {
        present.push(false);
    }
    proof {
        assert(count_set(present@) == 0) by {
            lemma_count_set_zero(present@);
        }
    }
    let mut i: usize = 0;
    while i < n
        invariant
            n == existing.len(),
            size == n + 2,
            labels == views(existing@),
            i <= n,
            present.len() == size,
            !present@[0],
            count_set(present@) <= i,
            forall|k: int|
                1 <= k < size ==> (#[trigger] present@[k] <==> exists|j: int|
                    0 <= j < i && label_ordinal(labels[j]) == Some(k as u64)),
        decreases n - i,
    {
        let ord = ordinal_of(existing[i].as_str());
        proof {
            assert(labels[i as int] == existing@[i as int]@);
        }
        match ord {
            Some(t) => {
                if t < size as u64 && !present[t as usize] {
                    proof {
                        lemma_count_set_update(present@, t as int);
                    }
                    present.set(t as usize, true);
                }
            },
            None => {},
        }
        i = i + 1;
        assert forall|k: int| 1 <= k < size implies (#[trigger] present@[k] <==> exists|j: int|
            0 <= j < i && label_ordinal(labels[j]) == Some(k as u64)) by {
            if present@[k] {
                if exists|j: int| 0 <= j < i - 1 && label_ordinal(labels[j]) == Some(k as u64) {
                    let j = choose|j: int| 0 <= j < i - 1 && label_ordinal(labels[j]) == Some(k as u64);
                    assert(0 <= j < i && label_ordinal(labels[j]) == Some(k as u64));
                } else {
                    assert(label_ordinal(labels[i - 1]) == Some(k as u64));
                }
            }
        }
    }
    let mut k: usize = 1;
    while k < size && present[k]
        invariant
            n == existing.len(),
            size == n + 2,
            labels == views(existing@),
            present.len() == size,
            count_set(present@) <= n,
            1 <= k <= size,
            forall|m: int| 1 <= m < k ==> #[trigger] present@[m],
        decreases size - k,
    {
        k = k + 1;
    }
    if k == size {
        proof {
            assert forall|m: int| 1 <= m < size implies #[trigger] present@[m] by {}
            lemma_count_set_tail(present@, 1);
            assert(false);
        }
    }
    proof {
        let kk = k as u64;
        assert forall|m: u64| 1 <= m < kk implies ordinal_taken(labels, m) by {
            assert(present@[m as int]);
            let j = choose|j: int| 0 <= j < n && label_ordinal(labels[j]) == Some(m);
            assert(label_ordinal(labels[j]) == Some(m));
        }
        if ordinal_taken(labels, kk) {
            let j = choose|j: int| 0 <= j < labels.len() && label_ordinal(#[trigger] labels[j]) == Some(kk);
            assert(label_ordinal(labels[j]) == Some(kk as u64));
            assert(present@[k as int]);
        }
    }
    untitled_label_text(k as u64)
}

proof fn lemma_count_set_zero(s: Seq<bool>)
    requires
        forall|k: int| 0 <= k < s.len() ==> !#[trigger] s[k],
    ensures
        count_set(s) == 0,
    decreases s.len(),
{
    if s.len() > 0 {
        lemma_count_set_zero(s.drop_last());
    }
}

proof fn lemma_digit_char(d: nat)
    requires
        d < 10,
    ensures
        crate::text::is_digit(digit_char(d)),
        crate::text::digit_value(digit_char(d)) == d,
{
}

proof fn lemma_decimal(n: nat)
    ensures
        decimal(n).len() >= 1,
        crate::text::all_digits(decimal(n)),
        crate::text::digits_value(decimal(n)) == n,
    decreases n,
{
    if n < 10 {
        lemma_digit_char(n);
        let s = decimal(n);
        assert(s.drop_last() =~= Seq::<char>::empty());
        assert(s.last() == digit_char(n));
        assert(crate::text::digits_value(s.drop_last()) == 0);
        assert(crate::text::digits_value(s) == crate::text::digits_value(s.drop_last()) * 10 + crate::text::digit_value(s.last()));
    } else {
        lemma_decimal(n / 10);
        lemma_digit_char(n % 10);
        let s = decimal(n);
        assert(s.drop_last() =~= decimal(n / 10));
        assert(s.last() == digit_char(n % 10));
        assert((n / 10) * 10 + n % 10 == n);
        assert(crate::text::digits_value(s) == crate::text::digits_value(s.drop_last()) * 10 + crate::text::digit_value(s.last()));
        assert forall|k: int| 0 <= k < s.len() implies crate::text::is_digit(#[trigger] s[k]) by {
            if k < s.len() - 1 {
                assert(s[k] == decimal(n / 10)[k]);
            }
        }
    }
}

/// The label at ordinal `k` occupies ordinal `k`.
proof fn lemma_untitled_label_ordinal(k: u64)
    requires
        k >= 1,
    ensures
        label_ordinal(untitled_label(k as nat)) == Some(k),
{
    let l = untitled_label(k as nat);
    if k == 1 {
        assert(trimmed(l) == l);
    } else {
        lemma_decimal(k as nat);
        let d = decimal(k as nat);
        assert(l.len() == 9 + d.len());
        assert(l[0] == 'U');
        assert(l.last() == d.last());
        assert(crate::text::is_digit(d[d.len() - 1]));
        assert(trimmed(l) == l);
        assert(l.subrange(0, 9) =~= untitled_space());
        assert(l.subrange(9, l.len() as int) =~= d);
        assert(l != untitled()) by {
            assert(l.len() != untitled().len());
        }
        assert(d[0] != '+') by {
            assert(crate::text::is_digit(d[0]));
        }
    }
}

/// The label picked for a new untitled space is in use by no existing
/// space: no existing label, trimmed, is the picked one.
pub proof fn law_next_untitled_is_unused(labels: Seq<Seq<char>>, r: Seq<char>)
    requires
        is_next_untitled(labels, r),
    ensures
        forall|i: int| 0 <= i < labels.len() ==> trimmed(#[trigger] labels[i]) != r,
{
    let k = choose|k: u64|
        k >= 1 && !ordinal_taken(labels, k) && (forall|m: u64| 1 <= m < k ==> ordinal_taken(labels, m)) && r
            == untitled_label(k as nat);
    lemma_untitled_label_ordinal(k);
    assert forall|i: int| 0 <= i < labels.len() implies trimmed(#[trigger] labels[i]) != r by {
        if trimmed(labels[i]) == r {
            assert(trimmed(r) == r);
            assert(label_ordinal(labels[i]) == label_ordinal(r));
            assert(ordinal_taken(labels, k));
        }
    }
}

} // verus!
