//! Reading command arguments straight from a transient's raw facts.
//!
//! A URL or a DID round-trips through JSON as an entity value (any string
//! containing a `:` does), so a reader that only accepted text would miss
//! them. These readers accept both representations, trim the result, and
//! treat a blank value as absent.

use vstd::prelude::*;
use crate::text::{chars_of, str_eq, trim, trim_chars, trimmed};

verus! {

/// The value a fact carries, as far as the command readers look at it.
#[derive(Clone, Debug)]
pub enum FactValue {
    /// A text value.
    Text(String),
    /// An entity, by its URI.
    Entity(String),
    /// A boolean value.
    Boolean(bool),
    /// Any other kind of value (numbers, bytes, …).
    Other,
}

/// One asserted fact of a transient: its attribute and value.
#[derive(Clone, Debug)]
pub struct Fact {
    /// The attribute, e.g. `xyz.tonk.invite/space`.
    pub attribute: String,
    /// The value.
    pub value: FactValue,
}

/// The attribute carrying the optional sync URL on a create-space transient.
pub const REMOTE_ATTR: &'static str = "xyz.tonk.command.create-space/remote";

/// The same field as asserted by branches seeded before the command took
/// its own namespace.
pub const LEGACY_REMOTE_ATTR: &'static str = "dom.event.current-target.elements.remote/value";

/// The create-space transient's optional `open` flag.
pub const OPEN_ATTR: &'static str = "xyz.tonk.command.create-space/open";

/// The invite transient's optional target space.
pub const INVITE_SPACE_ATTR: &'static str = "xyz.tonk.invite/space";

/// The enable-sync transient's target space.
pub const ENABLE_SYNC_SPACE_ATTR: &'static str = "xyz.tonk.enable-sync/space";

/// The enable-sync transient's endpoint.
pub const ENABLE_SYNC_REMOTE_ATTR: &'static str = "xyz.tonk.enable-sync/remote";

/// Marker asking the enable-sync handler to mint once attached.
pub const ENABLE_SYNC_SHARE_ATTR: &'static str = "xyz.tonk.enable-sync/share";

/// The text a value carries, tolerating both text and entity values.
pub open spec fn value_text(v: FactValue) -> Option<Seq<char>> {
    match v {
        FactValue::Text(s) => Some(s@),
        FactValue::Entity(s) => Some(s@),
        _ => None,
    }
}

/// The trimmed text, absent when blank.
pub open spec fn non_blank(t: Option<Seq<char>>) -> Option<Seq<char>> {
    match t {
        Some(s) => if trimmed(s).len() > 0 {
            Some(trimmed(s))
        } else {
            None
        },
        None => None,
    }
}

/// The value of the first fact whose attribute is `a` or `b`, read as
/// trimmed non-blank text.
pub open spec fn first_text(facts: Seq<Fact>, a: Seq<char>, b: Seq<char>) -> Option<Seq<char>>
    decreases facts.len(),
{
    if facts.len() == 0 {
        None
    } else if facts[0].attribute@ == a || facts[0].attribute@ == b {
        non_blank(value_text(facts[0].value))
    } else {
        first_text(facts.drop_first(), a, b)
    }
}

/// The `open` flag a value denotes: a boolean as itself, text unless it is
/// blank, `false` or `0`, an entity unless it is `case:false`.
pub open spec fn open_value(v: FactValue) -> bool {
    match v {
        FactValue::Boolean(b) => b,
        FactValue::Text(s) => {
            let t = trimmed(s@);
            !(t.len() == 0 || t == "false"@ || t == "0"@)
        },
        FactValue::Entity(s) => s@ != "case:false"@,
        FactValue::Other => false,
    }
}

/// The `open` flag of the first fact carrying `attr`; `false` when none does.
pub open spec fn first_open(facts: Seq<Fact>, attr: Seq<char>) -> bool
    decreases facts.len(),
{
    if facts.len() == 0 {
        false
    } else if facts[0].attribute@ == attr {
        open_value(facts[0].value)
    } else {
        first_open(facts.drop_first(), attr)
    }
}

fn text_of_value(v: &FactValue) -> (r: Option<String>)
    ensures
        match r {
            Some(s) => non_blank(value_text(*v)) == Some(s@),
            None => non_blank(value_text(*v)) is None,
        },
{
    match v {
        FactValue::Text(s) | FactValue::Entity(s) => {
            let t = trim(s.as_str());
            if t.unicode_len() > 0 {
                Some(t)
            } else {
                None
            }
        },
        _ => None,
    }
}

/// The first fact carrying attribute `a` or `b`, read as trimmed
/// non-blank text.
pub fn first_text_of(facts: &Vec<Fact>, a: &str, b: &str) -> (r: Option<String>)
    ensures
        match r {
            Some(s) => first_text(facts@, a@, b@) == Some(s@),
            None => first_text(facts@, a@, b@) is None,
        },
{
    let mut i: usize = 0;
    assert(facts@.subrange(0, facts.len() as int) =~= facts@);
    while i < facts.len()
        invariant
            i <= facts.len(),
            first_text(facts@, a@, b@) == first_text(facts@.subrange(i as int, facts.len() as int), a@, b@),
        decreases facts.len() - i,
    {
        let f = &facts[i];
        let ghost rest = facts@.subrange(i as int, facts.len() as int);
        assert(rest[0] == facts@[i as int]);
        if str_eq(f.attribute.as_str(), a) || str_eq(f.attribute.as_str(), b) {
            return text_of_value(&f.value);
        }
        assert(rest.drop_first() =~= facts@.subrange(i + 1, facts.len() as int));
        i = i + 1;
    }
    None
}

/// The fact carrying `attribute`, read as trimmed non-blank text
/// (tolerating text and entity values).
pub fn text_fact(facts: &Vec<Fact>, attribute: &str) -> (r: Option<String>)
    ensures
        match r {
            Some(s) => first_text(facts@, attribute@, attribute@) == Some(s@),
            None => first_text(facts@, attribute@, attribute@) is None,
        },
{
    first_text_of(facts, attribute, attribute)
}

/// The optional sync URL of a create-space transient, under either the
/// command's own attribute or the legacy form field.
pub fn remote_from_facts(facts: &Vec<Fact>) -> (r: Option<String>)
    ensures
        match r {
            Some(s) => first_text(facts@, REMOTE_ATTR@, LEGACY_REMOTE_ATTR@) == Some(s@),
            None => first_text(facts@, REMOTE_ATTR@, LEGACY_REMOTE_ATTR@) is None,
        },
{
    first_text_of(facts, REMOTE_ATTR, LEGACY_REMOTE_ATTR)
}

/// The target space a share claim named explicitly, if any.
pub fn invite_space_from_facts(facts: &Vec<Fact>) -> (r: Option<String>)
    ensures
        match r {
            Some(s) => first_text(facts@, INVITE_SPACE_ATTR@, INVITE_SPACE_ATTR@) == Some(s@),
            None => first_text(facts@, INVITE_SPACE_ATTR@, INVITE_SPACE_ATTR@) is None,
        },
{
    text_fact(facts, INVITE_SPACE_ATTR)
}

fn open_of_value(v: &FactValue) -> (b: bool)
    ensures
        b == open_value(*v),
{
    match v {
        FactValue::Boolean(b) => *b,
        FactValue::Text(s) => {
            let t = trim_chars(&chars_of(s.as_str()));
            let f = chars_of("false");
            let z = chars_of("0");
            !(t.len() == 0 || crate::text::chars_eq(&t, &f) || crate::text::chars_eq(&t, &z))
        },
        FactValue::Entity(s) => !str_eq(s.as_str(), "case:false"),
        FactValue::Other => false,
    }
}

/// Whether a create-space transient asks to navigate into the new space.
pub fn open_from_facts(facts: &Vec<Fact>) -> (b: bool)
    ensures
        b == first_open(facts@, OPEN_ATTR@),
{
    let mut i: usize = 0;
    assert(facts@.subrange(0, facts.len() as int) =~= facts@);
    while i < facts.len()
        invariant
            i <= facts.len(),
            first_open(facts@, OPEN_ATTR@) == first_open(facts@.subrange(i as int, facts.len() as int), OPEN_ATTR@),
        decreases facts.len() - i,
    {
        let f = &facts[i];
        let ghost rest = facts@.subrange(i as int, facts.len() as int);
        assert(rest[0] == facts@[i as int]);
        if str_eq(f.attribute.as_str(), OPEN_ATTR) {
            return open_of_value(&f.value);
        }
        assert(rest.drop_first() =~= facts@.subrange(i + 1, facts.len() as int));
        i = i + 1;
    }
    false
}

/// The raw-fact arguments of an enable-sync transient.
#[derive(Clone, Debug)]
pub struct EnableSyncArguments {
    /// The target space DID.
    pub space: Option<String>,
    /// The endpoint to attach; absent means wherever the account syncs.
    pub remote: Option<String>,
    /// Whether to mint an invite once attached.
    pub share: bool,
}

/// Read the enable-sync arguments from a transient's facts.
pub fn enable_sync_from_facts(facts: &Vec<Fact>) -> (r: EnableSyncArguments)
    ensures
        match r.space {
            Some(s) => first_text(facts@, ENABLE_SYNC_SPACE_ATTR@, ENABLE_SYNC_SPACE_ATTR@) == Some(s@),
            None => first_text(facts@, ENABLE_SYNC_SPACE_ATTR@, ENABLE_SYNC_SPACE_ATTR@) is None,
        },
        match r.remote {
            Some(s) => first_text(facts@, ENABLE_SYNC_REMOTE_ATTR@, ENABLE_SYNC_REMOTE_ATTR@) == Some(s@),
            None => first_text(facts@, ENABLE_SYNC_REMOTE_ATTR@, ENABLE_SYNC_REMOTE_ATTR@) is None,
        },
        r.share == first_text(facts@, ENABLE_SYNC_SHARE_ATTR@, ENABLE_SYNC_SHARE_ATTR@) is Some,
{
    EnableSyncArguments {
        space: text_fact(facts, ENABLE_SYNC_SPACE_ATTR),
        remote: text_fact(facts, ENABLE_SYNC_REMOTE_ATTR),
        share: text_fact(facts, ENABLE_SYNC_SHARE_ATTR).is_some(),
    }
}

} // verus!
