//! Creating a space: the name it gets, where its creator is sent, which
//! remote it is attached to, the notation that records its name, and the
//! home address its directory entry advertises.

use vstd::prelude::*;
use crate::config::{RepositoryConfiguration, main_name};
use crate::errors::RepositoryError;
use crate::labels::{is_next_untitled, next_untitled_label, untitled, views};
use crate::text::{str_eq, trim, trimmed};

verus! {

/// Whether a requested name asks for an `Untitled` label: blank, or the
/// `Untitled` sentinel the create wizard sends.
pub open spec fn asks_untitled(name: Seq<char>) -> bool {
    trimmed(name).len() == 0 || trimmed(name) == untitled()
}

/// Whether a requested name asks for an `Untitled` label.
pub fn wants_untitled(name: &str) -> (b: bool)
    ensures
        b == asks_untitled(name@),
{
    let t = trim(name);
    proof {
        reveal_strlit("Untitled");
        assert(untitled() =~= "Untitled"@);
    }
    t.unicode_len() == 0 || str_eq(t.as_str(), "Untitled")
}

/// The name a new space gets: the requested one, unless it asks for an
/// `Untitled` label, in which case the smallest free label among the
/// existing spaces' labels (`Untitled`, `Untitled 2`, …).
pub fn create_space_name(name: String, existing: Vec<String>) -> (r: String)
    requires
        existing@.len() + 2 <= usize::MAX,
    ensures
        !asks_untitled(name@) ==> r == name,
        asks_untitled(name@) ==> is_next_untitled(views(existing@), r@),
{
    if wants_untitled(name.as_str()) {
        next_untitled_label(existing)
    } else {
        name
    }
}

/// Where a freshly created space's creator is navigated: `/space/{key}`.
pub fn space_href(key: &str) -> (r: String)
    ensures
        r@ == "/space/"@ + key@,
{
    let mut r = String::from_str("/space/");
    r.append(key);
    r
}

/// The remote a new space is attached to: the one the form carried; else,
/// for an active account, the account's own sync remote; else none (the
/// space stays local until it is shared).
pub fn creation_remote(form: Option<String>, account_active: bool, account_remote: Option<String>) -> (r: Option<String>)
    ensures
        r == (match form {
            Some(f) => Some(f),
            None => if account_active {
                account_remote
            } else {
                None
            },
        }),
{
    match form {
        Some(f) => Some(f),
        None => if account_active {
            account_remote
        } else {
            None
        },
    }
}

/// The lowercase hexadecimal digit for `n` in `0..16`.
pub open spec fn hex_digit(n: int) -> char {
    if n < 10 {
        ('0' as int + n) as char
    } else {
        ('a' as int + (n - 10)) as char
    }
}

/// How one character stands inside a JSON string literal: quote and
/// backslash behind a backslash; backspace, tab, line feed, form feed and
/// carriage return by their short escapes; any other control character as
/// `\u00XX` with lowercase hex digits; every other character as itself.
pub open spec fn json_char(c: char) -> Seq<char> {
    if c == '"' {
        seq!['\\', '"']
    } else if c == '\\' {
        seq!['\\', '\\']
    } else if c == '\u{8}' {
        seq!['\\', 'b']
    } else if c == '\t' {
        seq!['\\', 't']
    } else if c == '\n' {
        seq!['\\', 'n']
    } else if c == '\u{c}' {
        seq!['\\', 'f']
    } else if c == '\r' {
        seq!['\\', 'r']
    } else if (c as int) < 0x20 {
        seq!['\\', 'u', '0', '0', hex_digit((c as int) / 16), hex_digit((c as int) % 16)]
    } else {
        seq![c]
    }
}

/// The characters of `s`, each escaped as a JSON string literal holds it.
pub open spec fn json_escaped(s: Seq<char>) -> Seq<char>
    decreases s.len(),
{
    if s.len() == 0 {
        Seq::empty()
    } else {
        json_escaped(s.drop_last()) + json_char(s.last())
    }
}

/// `s` as a JSON string literal: its escaped characters between quotes.
pub open spec fn json_string(s: Seq<char>) -> Seq<char> {
    seq!['"'] + json_escaped(s) + seq!['"']
}

/// `serde_json::to_string(&str)`: the string as a JSON string literal. The
/// serializer writes into a growable buffer and a `str` serializes without
/// fail, so the result is always `Ok`; the error arm only renders the
/// crate's error type as text.
#[verifier::external_body]
fn json_encode(s: &str) -> (r: Result<String, String>)
    ensures
        r is Ok,
        r->Ok_0@ == json_string(s@),
{
    match serde_json::to_string(s) {
        Ok(j) => Ok(j),
        Err(e) => Err(e.to_string()),
    }
}

/// The notation asserting a repository's own name, keyed by its subject:
/// the name rides as a JSON string so any character survives.
pub open spec fn name_body(subject: Seq<char>, name_json: Seq<char>) -> Seq<char> {
    "tonk/repository!:\n  this: "@ + subject + "\n  name: "@ + name_json + "\n"@
}

/// The notation recording `display_name` as the name of the repository
/// whose DID is `subject`.
pub fn repository_name_body(subject: &str, display_name: &str) -> (r: Result<String, RepositoryError>)
    ensures
        r matches Ok(b) && b@ == name_body(subject@, json_string(display_name@)),
{
    match json_encode(display_name) {
        Ok(name) => {
            let mut b = String::from_str("tonk/repository!:\n  this: ");
            b.append(subject);
            b.append("\n  name: ");
            b.append(name.as_str());
            b.append("\n");
            Ok(b)
        },
        Err(e) => {
            let mut m = String::from_str("encode repository name: ");
            m.append(e.as_str());
            Err(RepositoryError::Internal(m))
        },
    }
}

/// The home address a space's directory entry advertises: the address of
/// the remote its `main` branch tracks, when `main` tracks one the
/// configuration holds.
pub open spec fn home_address_of(c: RepositoryConfiguration) -> Option<Seq<char>> {
    if c.branch.as_map().contains_key(main_name()) {
        match c.branch.as_map()[main_name()].upstream {
            Some(u) => if c.remote.as_map().contains_key(u.remote@) {
                Some(c.remote.as_map()[u.remote@].address@)
            } else {
                None
            },
            None => None,
        }
    } else {
        None
    }
}

/// The home address a space's directory entry advertises.
pub fn home_address(configuration: &RepositoryConfiguration) -> (r: Option<String>)
    requires
        configuration.wf(),
    ensures
        match r {
            Some(a) => home_address_of(*configuration) == Some(a@),
            None => home_address_of(*configuration) is None,
        },
{
    proof {
        reveal_strlit("main");
        assert(main_name() =~= "main"@);
    }
    match configuration.branch.get("main") {
        None => None,
        Some(settings) => match &settings.upstream {
            None => None,
            Some(u) => match configuration.remote.get(u.remote.as_str()) {
                None => None,
                Some(remote) => Some(remote.address.clone()),
            },
        },
    }
}

/// The standard library every space is seeded with.
pub const STANDARD_LIBRARY_URL: &'static str = "/library/core.yaml";

/// The lean library the profile's meta branch is seeded with.
pub const PROFILE_LIBRARY_URL: &'static str = "/library/profile.yaml";

/// The body a fresh space's branch is seeded with: the scaffold library
/// and the notation recording the space's name, as one document, so the
/// name lands in the same commit as the concept it instantiates.
pub fn seed_body(scaffold: &str, subject: &str, display_name: &str) -> (r: Result<String, RepositoryError>)
    ensures
        r matches Ok(b) && b@ == scaffold@ + "\n"@ + name_body(subject@, json_string(display_name@)),
{
    match repository_name_body(subject, display_name) {
        Ok(name) => {
            let mut b = String::from_str(scaffold);
            b.append("\n");
            b.append(name.as_str());
            Ok(b)
        },
        Err(e) => Err(e),
    }
}

/// Why the local account root could not be loaded.
#[derive(Clone, Debug)]
pub enum RootLookup {
    /// No root is persisted yet: the onboarding account stands in.
    RootRequired,
    /// Loading failed, with this rendered error.
    Failed(String),
}

/// Whom a new space is delegated to, as far as the root lookup decides.
#[derive(Clone, Debug)]
pub enum OwnerStep {
    /// The persisted account root.
    Root(String),
    /// No root yet: grant this device under the onboarding account and
    /// delegate to that account.
    UseOnboarding,
}

/// A space always delegates to an account: the persisted root when there
/// is one, else the onboarding account; any other failure to read the
/// root refuses the creation.
pub fn space_owner(root: Result<String, RootLookup>) -> (r: Result<OwnerStep, RepositoryError>)
    ensures
        match root {
            Ok(d) => r == Ok::<OwnerStep, RepositoryError>(OwnerStep::Root(d)),
            Err(RootLookup::RootRequired) => r matches Ok(OwnerStep::UseOnboarding),
            Err(RootLookup::Failed(m)) => r matches Err(RepositoryError::Internal(x)) && x@ == "failed to load local root: "@ + m@,
        },
{
    match root {
        Ok(d) => Ok(OwnerStep::Root(d)),
        Err(RootLookup::RootRequired) => Ok(OwnerStep::UseOnboarding),
        Err(RootLookup::Failed(m)) => {
            let mut x = String::from_str("failed to load local root: ");
            x.append(m.as_str());
            Err(RepositoryError::Internal(x))
        },
    }
}

/// The onboarding account a space is delegated to, once the device grant
/// was attempted and the account's DID read.
pub fn onboarding_owner(granted: Result<(), String>, did: Result<Option<String>, String>) -> (r: Result<String, RepositoryError>)
    ensures
        match granted {
            Err(g) => r matches Err(RepositoryError::Internal(x)) && x@ == "failed to grant the device: "@ + g@,
            Ok(()) => match did {
                Err(o) => r matches Err(RepositoryError::Internal(x)) && x@ == "failed to open the onboarding account: "@ + o@,
                Ok(None) => r matches Err(RepositoryError::Internal(x)) && x@ == "the onboarding account did not materialise"@,
                Ok(Some(d)) => r == Ok::<String, RepositoryError>(d),
            },
        },
{
    match granted {
        Err(g) => {
            let mut x = String::from_str("failed to grant the device: ");
            x.append(g.as_str());
            Err(RepositoryError::Internal(x))
        },
        Ok(()) => match did {
            Err(o) => {
                let mut x = String::from_str("failed to open the onboarding account: ");
                x.append(o.as_str());
                Err(RepositoryError::Internal(x))
            },
            Ok(None) => Err(RepositoryError::Internal(String::from_str("the onboarding account did not materialise"))),
            Ok(Some(d)) => Ok(d),
        },
    }
}

/// A space whose seed could not be sealed to the account is not created:
/// the sealed seed is the only copy of its secret that outlives creation.
pub fn custody_required(custodied: bool) -> (r: Result<(), RepositoryError>)
    ensures
        custodied ==> r is Ok,
        !custodied ==> (r matches Err(RepositoryError::Internal(x)) && x@
            == "the space seed could not be custodied under the account"@),
{
    if custodied {
        Ok(())
    } else {
        Err(RepositoryError::Internal(String::from_str("the space seed could not be custodied under the account")))
    }
}

} // verus!
