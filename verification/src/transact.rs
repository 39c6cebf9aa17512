//! The `/transact` routes' decisions: which claims pass preflight and
//! with what refusal, what each committed invocation reports, when a
//! commit marks its repository dirty or is announced, and who may write
//! the profile branch.

use vstd::prelude::*;
use crate::config::Revision;
use crate::errors::TonkWorkerError;
use crate::text::str_eq;

verus! {

/// Request-level disposition of a successfully committed invocation.
#[derive(Clone, Copy, Debug, PartialEq, Eq, Structural)]
pub enum InvocationStatus {
    /// At least one declarative rule or native handler was registered.
    Handled,
}

/// Path parameters for the repository-scoped route.
#[derive(Clone, Debug)]
pub struct TransactPath {
    /// The repository name.
    pub repo: String,
    /// The branch name.
    pub branch: String,
}

/// Path parameters for the profile-scoped route; the profile is a
/// singleton, so there is no repository segment.
#[derive(Clone, Debug)]
pub struct ProfileTransactPath {
    /// The branch name.
    pub branch: String,
}

/// Whether two optional revisions name the same tree.
pub open spec fn same_tree(a: Option<Revision>, b: Option<Revision>) -> bool {
    match (a, b) {
        (Some(x), Some(y)) => x.tree@ == y.tree@,
        (None, None) => true,
        _ => false,
    }
}

/// Whether two revisions are the same revision.
pub open spec fn same_revision(a: Revision, b: Revision) -> bool {
    a.tree@ == b.tree@ && a.version@ == b.version@
}

/// A commit marks its repository dirty only when it moved the tree: a
/// transact whose data did not change (a transient-only stamp) has
/// nothing to push.
pub fn moved_tree(before: &Option<Revision>, after: &Option<Revision>) -> (b: bool)
    ensures
        b == !same_tree(*before, *after),
{
    match (before, after) {
        (Some(x), Some(y)) => !str_eq(x.tree.as_str(), y.tree.as_str()),
        (None, None) => false,
        _ => true,
    }
}

/// A commit is announced to cross-cutting listeners when it produced a
/// revision other than the one the branch had.
pub fn announces_commit(before: &Option<Revision>, after: &Option<Revision>) -> (b: bool)
    ensures
        b == (match (*before, *after) {
            (_, None) => false,
            (None, Some(_)) => true,
            (Some(x), Some(y)) => !same_revision(x, y),
        }),
{
    match (before, after) {
        (_, None) => false,
        (None, Some(_)) => true,
        (Some(x), Some(y)) => !(str_eq(x.tree.as_str(), y.tree.as_str()) && str_eq(x.version.as_str(), y.version.as_str())),
    }
}

/// A sealed guest (a client bound to a view) may not write the profile
/// branch; any other client may.
pub fn profile_write_allowed(sealed_guest: bool) -> (r: Result<(), TonkWorkerError>)
    ensures
        sealed_guest ==> (r matches Err(TonkWorkerError::Forbidden(m)) && m@ == "sealed guests may not write the profile branch"@),
        !sealed_guest ==> r is Ok,
{
    if sealed_guest {
        Err(TonkWorkerError::Forbidden(String::from_str("sealed guests may not write the profile branch")))
    } else {
        Ok(())
    }
}

/// Why a command's arguments were refused by its schema.
#[derive(Clone, Debug)]
pub enum ValidationFailure {
    /// An argument the command does not declare.
    UnknownArgument { field: String },
    /// A required argument is missing.
    MissingRequiredArgument { field: String },
    /// An argument uses a reserved name.
    ReservedArgument { field: String },
    /// An argument has the wrong type.
    TypeMismatch { field: String, expected: String, found: String },
}

/// The `Debug` rendering of a string: quoted, with escapes.
pub uninterp spec fn debug_quoted(s: Seq<char>) -> Seq<char>;

/// Whether every character of `s` renders as itself inside `Debug`
/// quotes: printable ASCII other than the quote and the backslash.
pub open spec fn plain_ascii(s: Seq<char>) -> bool {
    forall|i: int| 0 <= i < s.len() ==> (' ' <= #[trigger] s[i] && s[i] <= '~' && s[i] != '"' && s[i] != '\\')
}

/// `format!("{:?}", s)` for a string: `Debug` for `str` writes the text
/// between double quotes, escaping quotes, backslashes and characters
/// that are not printable; text with none of those is written as is.
#[verifier::external_body]
fn debug_string(s: &str) -> (r: String)
    ensures
        r@ == debug_quoted(s@),
        plain_ascii(s@) ==> r@ == "\""@ + s@ + "\""@,
{
    format!("{:?}", s)
}

/// The stable code a validation failure is reported under.
pub open spec fn validation_code(f: ValidationFailure) -> Seq<char> {
    match f {
        ValidationFailure::UnknownArgument { .. } => "command_argument_unknown"@,
        ValidationFailure::MissingRequiredArgument { .. } => "command_argument_missing"@,
        ValidationFailure::ReservedArgument { .. } => "command_argument_reserved"@,
        ValidationFailure::TypeMismatch { .. } => "command_argument_type"@,
    }
}

/// The message a validation failure is reported with.
pub open spec fn validation_message(f: ValidationFailure) -> Seq<char> {
    match f {
        ValidationFailure::UnknownArgument { field } => "command argument "@ + debug_quoted(field@) + " is not declared"@,
        ValidationFailure::MissingRequiredArgument { field } => "required command argument "@ + debug_quoted(field@)
            + " is missing"@,
        ValidationFailure::ReservedArgument { field } => "command argument "@ + debug_quoted(field@) + " is reserved"@,
        ValidationFailure::TypeMismatch { field, expected, found } => "command argument "@ + debug_quoted(field@)
            + " expects "@ + expected@ + " but received "@ + found@,
    }
}

/// A schema refusal as a command error.
pub fn validation_error(failure: ValidationFailure) -> (r: TonkWorkerError)
    ensures
        r matches TonkWorkerError::Command { code, message } && code@ == validation_code(failure) && message@
            == validation_message(failure),
{
    match failure {
        ValidationFailure::UnknownArgument { field } => {
            let mut m = String::from_str("command argument ");
            let q = debug_string(field.as_str());
            m.append(q.as_str());
            m.append(" is not declared");
            TonkWorkerError::Command { code: String::from_str("command_argument_unknown"), message: m }
        },
        ValidationFailure::MissingRequiredArgument { field } => {
            let mut m = String::from_str("required command argument ");
            let q = debug_string(field.as_str());
            m.append(q.as_str());
            m.append(" is missing");
            TonkWorkerError::Command { code: String::from_str("command_argument_missing"), message: m }
        },
        ValidationFailure::ReservedArgument { field } => {
            let mut m = String::from_str("command argument ");
            let q = debug_string(field.as_str());
            m.append(q.as_str());
            m.append(" is reserved");
            TonkWorkerError::Command { code: String::from_str("command_argument_reserved"), message: m }
        },
        ValidationFailure::TypeMismatch { field, expected, found } => {
            let mut m = String::from_str("command argument ");
            let q = debug_string(field.as_str());
            m.append(q.as_str());
            m.append(" expects ");
            m.append(expected.as_str());
            m.append(" but received ");
            m.append(found.as_str());
            TonkWorkerError::Command { code: String::from_str("command_argument_type"), message: m }
        },
    }
}

/// What preflight learned of one source claim.
#[derive(Clone, Debug)]
pub enum ClaimCheck {
    /// A nominal command invocation.
    Invoke {
        /// Whether the branch's schema knows the command kind.
        known: bool,
        /// The schema's refusal of the arguments, if any.
        invalid: Option<ValidationFailure>,
        /// Declarative rules registered for the kind.
        registered_rules: usize,
        /// Native handlers registered for the kind.
        registered_handlers: usize,
    },
    /// A data claim (an assertion or retraction), with its coercion error if it has one.
    Data { error: Option<String> },
}

/// An invocation that passed preflight.
#[derive(Clone, Debug)]
pub struct PreparedInvocation {
    /// Zero-based source claim index.
    pub claim: usize,
    /// Declarative rules registered for the kind.
    pub registered_rules: usize,
    /// Native handlers registered for the kind.
    pub registered_handlers: usize,
}

/// Why preflight refused a claim.
#[derive(Clone, Debug)]
pub enum Refusal {
    /// The branch's schema does not know the command kind.
    UnknownCommand,
    /// The schema refused the arguments.
    InvalidArguments(ValidationFailure),
    /// No rule or native handler consumes the kind.
    Unhandled,
    /// A structural claim failed to coerce.
    InvalidClaim(String),
}

/// The refusal, if any, of one claim: an invocation is checked for a
/// known kind, then its arguments, then a consumer; a structural claim
/// for its coercion.
pub open spec fn claim_refusal(c: ClaimCheck) -> Option<Refusal> {
    match c {
        ClaimCheck::Invoke { known, invalid, registered_rules, registered_handlers } => {
            if !known {
                Some(Refusal::UnknownCommand)
            } else if invalid is Some {
                Some(Refusal::InvalidArguments(invalid->0))
            } else if registered_rules == 0 && registered_handlers == 0 {
                Some(Refusal::Unhandled)
            } else {
                None
            }
        },
        ClaimCheck::Data { error } => match error {
            Some(m) => Some(Refusal::InvalidClaim(m)),
            None => None,
        },
    }
}

/// Whether `e` is the error a refusal is reported with.
pub open spec fn refusal_error(r: Refusal, e: TonkWorkerError) -> bool {
    match r {
        Refusal::UnknownCommand => e matches TonkWorkerError::Command { code, message } && code@ == "command_unknown"@
            && message@ == "unknown command kind"@,
        Refusal::InvalidArguments(f) => e matches TonkWorkerError::Command { code, message } && code@
            == validation_code(f) && message@ == validation_message(f),
        Refusal::Unhandled => e matches TonkWorkerError::Command { code, message } && code@ == "command_unhandled"@
            && message@ == "command has no registered rule or native handler"@,
        Refusal::InvalidClaim(m) => e matches TonkWorkerError::Router(x) && x@ == "invalid claim: "@ + m@,
    }
}

/// The invocations among `checks`, in source order, with their indices.
pub open spec fn prepared_of(checks: Seq<ClaimCheck>) -> Seq<PreparedInvocation>
    decreases checks.len(),
{
    if checks.len() == 0 {
        Seq::empty()
    } else {
        let rest = prepared_of(checks.drop_last());
        match checks.last() {
            ClaimCheck::Invoke { registered_rules, registered_handlers, .. } => rest.push(
                PreparedInvocation { claim: (checks.len() - 1) as usize, registered_rules, registered_handlers },
            ),
            _ => rest,
        }
    }
}

/// Preflight every source claim before anything is committed: the first
/// refused claim, in source order, refuses the whole request; otherwise
/// every invocation is prepared, in order.
pub fn preflight(checks: &Vec<ClaimCheck>) -> (r: Result<Vec<PreparedInvocation>, TonkWorkerError>)
    ensures
        r is Ok <==> forall|i: int| 0 <= i < checks@.len() ==> claim_refusal(#[trigger] checks@[i]) is None,
        r matches Ok(p) ==> p@ == prepared_of(checks@),
        r matches Err(e) ==> exists|i: int|
            0 <= i < checks@.len() && (forall|j: int| 0 <= j < i ==> claim_refusal(#[trigger] checks@[j]) is None)
                && (#[trigger] claim_refusal(checks@[i]) matches Some(x) && refusal_error(x, e)),
{
    let mut prepared: Vec<PreparedInvocation> = Vec::new();
    let mut i: usize = 0;
    while i < checks.len()
        invariant
            i <= checks@.len(),
            forall|j: int| 0 <= j < i ==> claim_refusal(#[trigger] checks@[j]) is None,
            prepared@ == prepared_of(checks@.subrange(0, i as int)),
        decreases checks@.len() - i,
    {
        let ghost pre = checks@.subrange(0, i + 1);
        assert(pre.drop_last() =~= checks@.subrange(0, i as int));
        assert(pre.last() == checks@[i as int]);
        match &checks[i] {
            ClaimCheck::Invoke { known, invalid, registered_rules, registered_handlers } => {
                if !*known {
                    let e = crate::errors::command_error("command_unknown", String::from_str("unknown command kind"));
                    return Err(e);
                }
                match invalid {
                    Some(f) => {
                        return Err(validation_error(f.clone_failure()));
                    },
                    None => {},
                }
                if *registered_rules == 0 && *registered_handlers == 0 {
                    let e = crate::errors::command_error(
                        "command_unhandled",
                        String::from_str("command has no registered rule or native handler"),
                    );
                    return Err(e);
                }
                prepared.push(
                    PreparedInvocation {
                        claim: i,
                        registered_rules: *registered_rules,
                        registered_handlers: *registered_handlers,
                    },
                );
            },
            ClaimCheck::Data { error } => {
                match error {
                    Some(m) => {
                        let mut msg = String::from_str("invalid claim: ");
                        msg.append(m.as_str());
                        return Err(TonkWorkerError::Router(msg));
                    },
                    None => {},
                }
            },
        }
        i = i + 1;
    }
    assert(checks@.subrange(0, i as int) =~= checks@);
    Ok(prepared)
}

impl ValidationFailure {
    /// A copy of this failure.
    pub fn clone_failure(&self) -> (c: Self)
        ensures
            c == *self,
    {
        match self {
            ValidationFailure::UnknownArgument { field } => ValidationFailure::UnknownArgument { field: field.clone() },
            ValidationFailure::MissingRequiredArgument { field } => ValidationFailure::MissingRequiredArgument {
                field: field.clone(),
            },
            ValidationFailure::ReservedArgument { field } => ValidationFailure::ReservedArgument { field: field.clone() },
            ValidationFailure::TypeMismatch { field, expected, found } => ValidationFailure::TypeMismatch {
                field: field.clone(),
                expected: expected.clone(),
                found: found.clone(),
            },
        }
    }
}

/// The lowercase hex digit of a nibble.
pub open spec fn hex_digit(n: int) -> char {
    seq!['0', '1', '2', '3', '4', '5', '6', '7', '8', '9', 'a', 'b', 'c', 'd', 'e', 'f'][n]
}

/// Lowercase hex of a byte string: two digits per byte, high nibble
/// first.
pub open spec fn hex_lower(b: Seq<u8>) -> Seq<char>
    decreases b.len(),
{
    if b.len() == 0 {
        Seq::empty()
    } else {
        hex_lower(b.drop_last()) + seq![hex_digit(b.last() as int / 16), hex_digit(b.last() as int % 16)]
    }
}

/// `hex::encode`: each byte as two lowercase hex digits, high nibble
/// first, in order.
#[verifier::external_body]
fn hex_encode(bytes: &[u8]) -> (r: String)
    ensures
        r@ == hex_lower(bytes@),
{
    hex::encode(bytes)
}

/// `rand::random::<[u8; 16]>()`: sixteen bytes from the thread-local
/// generator; nothing is promised of their values.
#[verifier::external_body]
fn random_bytes() -> (r: [u8; 16]) {
    rand::random::<[u8; 16]>()
}

/// The correlation identifier an invocation is recorded under, from the
/// sixteen bytes drawn for it.
pub fn correlation_for(bytes: &[u8; 16]) -> (r: String)
    ensures
        r@ == "invoke:"@ + hex_lower(bytes@),
{
    let mut r = String::from_str("invoke:");
    let h = hex_encode(bytes.as_slice());
    r.append(h.as_str());
    r
}

/// A fresh correlation identifier: `invoke:` and the hex of sixteen
/// random bytes.
pub fn new_correlation() -> (r: String)
    ensures
        exists|b: Seq<u8>| b.len() == 16 && r@ == "invoke:"@ + hex_lower(b),
{
    let bytes = random_bytes();
    let r = correlation_for(&bytes);
    assert(bytes@.len() == 16);
    r
}

/// Per-claim command evidence returned by `/transact`.
#[derive(Clone, Debug)]
pub struct InvocationOutcome {
    /// Zero-based source claim index.
    pub claim: usize,
    /// The command kind, by entity URI.
    pub command: String,
    /// Successful request-level status.
    pub status: InvocationStatus,
    /// Declarative rules registered for this kind at preflight.
    pub registered_rules: usize,
    /// Declarative rules whose premises matched this occurrence.
    pub fired_rules: usize,
    /// Native handlers registered for this kind at preflight.
    pub registered_handlers: usize,
    /// Native handlers scheduled after commit.
    pub scheduled_handlers: usize,
    /// Correlation identifier for status lookup.
    pub correlation: String,
}

/// What a committed invocation reports: its preflight counts, the rules
/// that fired and the handlers scheduled after commit.
pub fn invocation_outcome(
    prepared: &PreparedInvocation,
    command: String,
    correlation: String,
    fired_rules: usize,
    scheduled_handlers: usize,
) -> (o: InvocationOutcome)
    ensures
        o.claim == prepared.claim,
        o.command == command,
        o.status == InvocationStatus::Handled,
        o.registered_rules == prepared.registered_rules,
        o.fired_rules == fired_rules,
        o.registered_handlers == prepared.registered_handlers,
        o.scheduled_handlers == scheduled_handlers,
        o.correlation == correlation,
{
    InvocationOutcome {
        claim: prepared.claim,
        command,
        status: InvocationStatus::Handled,
        registered_rules: prepared.registered_rules,
        fired_rules,
        registered_handlers: prepared.registered_handlers,
        scheduled_handlers,
        correlation,
    }
}

/// What a commit reports: the number of claims (asserts and retracts)
/// submitted, and the entity count, which is reported as zero until effect
/// evaluation counts entities.
#[derive(Clone, Copy, Debug, PartialEq, Eq, Structural)]
pub struct CommitSummary {
    /// The number of claims submitted.
    pub claims: usize,
    /// The number of entities the commit touched, as counted so far.
    pub entities: usize,
}

/// The response body of `/transact`: revisions before and after, the
/// commit summary, and the invocations in claim order.
#[derive(Clone, Debug)]
pub struct TransactResponse {
    /// Revision of the branch before the commit, if any.
    pub revision_before: Option<Revision>,
    /// Revision of the branch after the commit.
    pub revision_after: Option<Revision>,
    /// The commit summary.
    pub commits: CommitSummary,
    /// Nominal invocation results in source claim order.
    pub invocations: Vec<InvocationOutcome>,
}

/// A revision by its texts.
pub open spec fn revision_view(r: Option<Revision>) -> Option<(Seq<char>, Seq<char>)> {
    match r {
        Some(x) => Some((x.tree@, x.version@)),
        None => None,
    }
}

/// An empty batch commits nothing: the branch stays where it was.
pub fn empty_transact_response(revision_before: Option<Revision>) -> (r: TransactResponse)
    ensures
        revision_view(r.revision_before) == revision_view(revision_before),
        r.revision_after == revision_before,
        r.commits == (CommitSummary { claims: 0, entities: 0 }),
        r.invocations@.len() == 0,
{
    let copy = match &revision_before {
        Some(r) => Some(Revision { tree: r.tree.clone(), version: r.version.clone() }),
        None => None,
    };
    TransactResponse {
        revision_before: copy,
        revision_after: revision_before,
        commits: CommitSummary { claims: 0, entities: 0 },
        invocations: Vec::new(),
    }
}

/// A committed batch: the branch moved from `revision_before` to
/// `revision_after`, `claims` claims were submitted, and the invocations
/// answered in claim order.
pub fn committed_transact_response(
    revision_before: Option<Revision>,
    revision_after: Revision,
    claims: usize,
    invocations: Vec<InvocationOutcome>,
) -> (r: TransactResponse)
    ensures
        r.revision_before == revision_before,
        r.revision_after == Some(revision_after),
        r.commits == (CommitSummary { claims, entities: 0 }),
        r.invocations == invocations,
{
    TransactResponse {
        revision_before,
        revision_after: Some(revision_after),
        commits: CommitSummary { claims, entities: 0 },
        invocations,
    }
}

} // verus!
