//! Sharing a space: the steps a share click goes through before and after
//! it mints, what a refusal reports to the share control, and the invite
//! link a recipient opens.

use vstd::prelude::*;
use crate::errors::TonkWorkerError;
use crate::seed::{bs58_encode, bs58_text};
use crate::text::str_eq;

verus! {

/// Why a share click could not mint a link.
#[derive(Clone, Debug)]
pub enum BlockedReason {
    /// Sharing needs an account; none is set up.
    AccountRequired,
    /// The worker is fetching an account; the share resumes once it lands.
    NeedsAccount,
    /// The space has no remote yet; attaching one is the next step.
    NotSynced,
    /// The access service refused to provision the space.
    NotProvisioned,
    /// The account is suspended.
    Suspended,
    /// The space's remote cannot be shared.
    UnshareableRemote,
    /// Any other reason, by its code.
    Other(String),
}

/// The status the share control shows for a refused click.
#[derive(Clone, Copy, Debug, PartialEq, Eq, Structural)]
pub enum InviteStatus {
    /// The request is still open: what blocks it is being repaired.
    Requested,
    /// Terminal: the account is suspended.
    Suspended,
    /// Terminal: the remote cannot be shared.
    Unshareable,
}

/// Only reasons nothing can repair are terminal; a missing account or a
/// missing remote is answered by getting one, so the request stays open.
pub fn invite_status_for(reason: &BlockedReason) -> (s: InviteStatus)
    ensures
        s == (match reason {
            BlockedReason::Suspended => InviteStatus::Suspended,
            BlockedReason::UnshareableRemote => InviteStatus::Unshareable,
            _ => InviteStatus::Requested,
        }),
{
    match reason {
        BlockedReason::Suspended => InviteStatus::Suspended,
        BlockedReason::UnshareableRemote => InviteStatus::Unshareable,
        _ => InviteStatus::Requested,
    }
}

/// The detail a share without an account is refused with.
pub fn account_required_detail() -> (d: String)
    ensures
        d@ == "Create an account or log in before sharing this space."@,
{
    String::from_str("Create an account or log in before sharing this space.")
}

/// What a share does when no remote is ready, before it reports the
/// refusal.
#[derive(Clone, Debug)]
pub struct RefusalPlan {
    /// Ask the page to add an account (fire and forget).
    pub request_account_link: bool,
    /// Attach this provider address as the space's remote first.
    pub attach: Option<String>,
}

/// A refusal that needs an account asks the requesting page for one; a
/// space that is merely not synced gets the account's provider attached,
/// when the account names one.
pub fn refusal_plan(reason: &BlockedReason, has_client: bool, provider: Option<String>) -> (p: RefusalPlan)
    ensures
        p.request_account_link == (reason is NeedsAccount && has_client),
        p.attach == (if reason is NotSynced {
            provider
        } else {
            None
        }),
{
    let request_account_link = match reason {
        BlockedReason::NeedsAccount => has_client,
        _ => false,
    };
    let attach = match reason {
        BlockedReason::NotSynced => provider,
        _ => None,
    };
    RefusalPlan { request_account_link, attach }
}

/// How a share click ends.
#[derive(Clone, Copy, Debug, PartialEq, Eq, Structural)]
pub enum RunInvite {
    /// The click is answered: a link, or a refusal.
    Settled,
    /// A remote was attached; the caller mints next.
    Attached,
}

/// After an attach attempt (`None` when none was made): a successful
/// attach hands the click back to mint; otherwise the refusal is
/// reported and the click settles.
pub fn after_attach(attached: Option<bool>) -> (r: RunInvite)
    ensures
        r == (if attached == Some(true) {
            RunInvite::Attached
        } else {
            RunInvite::Settled
        }),
{
    match attached {
        Some(true) => RunInvite::Attached,
        _ => RunInvite::Settled,
    }
}

/// What provisioning the space's consumer came back with.
#[derive(Clone, Debug)]
pub enum Provisioning {
    /// The consumer row was already recorded; nothing ran.
    Recorded,
    /// Provisioning ran and succeeded.
    Provisioned,
    /// The access service answered with an error.
    Refused { message: String, retryable: bool },
    /// Provisioning failed some other way.
    Failed,
}

/// Whether a share goes on to mint after provisioning: only a definite,
/// non-retryable refusal by this deployment's own service blocks it
/// (reported with the service's message); a foreign remote, a retryable
/// answer or any other failure is skipped and the mint proceeds.
pub fn provisioning_block(outcome: &Provisioning, own_service: bool) -> (b: Option<String>)
    ensures
        match *outcome {
            Provisioning::Refused { message, retryable } => if own_service && !retryable {
                b matches Some(m) && m@ == message@
            } else {
                b is None
            },
            _ => b is None,
        },
{
    match outcome {
        Provisioning::Refused { message, retryable } => {
            if own_service && !*retryable {
                Some(message.clone())
            } else {
                None
            }
        },
        _ => None,
    }
}

/// The ASCII serialization of a URL's origin, when it parses and has a
/// tuple (scheme, host, port) origin.
pub uninterp spec fn tuple_origin(url: Seq<char>) -> Option<Seq<char>>;

/// `url::Url::parse(url)` and its `origin()`: the serialized origin when
/// the URL parses to a tuple origin; `None` when it does not parse or its
/// origin is opaque (an opaque origin equals no other).
#[verifier::external_body]
fn origin_of(url: &str) -> (r: Option<String>)
    ensures
        match r {
            Some(o) => tuple_origin(url@) == Some(o@),
            None => tuple_origin(url@) is None,
        },
{
    match url::Url::parse(url) {
        Ok(parsed) => match parsed.origin() {
            url::Origin::Tuple(..) => Some(parsed.origin().ascii_serialization()),
            url::Origin::Opaque(_) => None,
        },
        Err(_) => None,
    }
}

/// Whether a remote is served by this deployment's own access service
/// (`own_service` is that service's URL, `None` when it is unknown): the
/// two must share a tuple origin.
pub fn remote_is_own_service(remote: &str, own_service: Option<&str>) -> (b: bool)
    ensures
        b == (match own_service {
            Some(own) => tuple_origin(remote@) is Some && tuple_origin(remote@) == tuple_origin(own@),
            None => false,
        }),
{
    match own_service {
        None => false,
        Some(own) => {
            let own_origin = origin_of(own);
            let remote_origin = origin_of(remote);
            match (remote_origin, own_origin) {
                (Some(a), Some(b)) => str_eq(a.as_str(), b.as_str()),
                _ => false,
            }
        },
    }
}

/// The long invite link: `{base}?access={proof}{remote}#{seed}`. The seed
/// is the fragment, so it never reaches a server.
pub open spec fn long_link(base: Seq<char>, proof: Seq<char>, remote: Seq<char>, seed: Seq<char>) -> Seq<char> {
    base + "?access="@ + proof + remote + "#"@ + seed
}

/// Assemble the long invite link from the resolved `…/join` base, the
/// base58 of the serialized delegation chain, the legacy `&remote=…`
/// suffix (empty when the chain carries the endpoint) and the base58 of
/// the membership seed.
pub fn invite_link(base: &str, chain_bytes: &[u8], remote: &str, seed_bytes: &[u8]) -> (r: String)
    ensures
        r@ == long_link(base@, bs58_text(chain_bytes@), remote@, bs58_text(seed_bytes@)),
{
    let proof = bs58_encode(chain_bytes);
    let seed = bs58_encode(seed_bytes);
    long_invite_url(base, proof.as_str(), remote, seed.as_str())
}

/// The long invite link from its already-encoded parts, before referral
/// attribution: the attributed form is made outside this library, by the
/// launch-analytics service, and `attributed_link` picks between the two.
/// This link alone is already a complete invite.
pub fn long_invite_url(base: &str, proof: &str, remote: &str, seed: &str) -> (r: String)
    ensures
        r@ == long_link(base@, proof@, remote@, seed@),
{
    let mut r = String::from_str(base);
    r.append("?access=");
    r.append(proof);
    r.append(remote);
    r.append("#");
    r.append(seed);
    r
}

/// The link a share finally carries: the referral-attributed form when
/// attribution succeeded, else the long link, which is a complete invite.
pub fn attributed_link(link: String, referral: Option<String>) -> (r: String)
    ensures
        r == (match referral {
            Some(u) => u,
            None => link,
        }),
{
    match referral {
        Some(u) => u,
        None => link,
    }
}

/// Whether a shortening answer replaces the delivered link: only a
/// successful answer that differs from it.
pub fn shortened_link(link: &str, short: Option<String>) -> (r: Option<String>)
    ensures
        match short {
            Some(s) => if s@ != link@ {
                r == Some(s)
            } else {
                r is None
            },
            None => r is None,
        },
{
    match short {
        Some(s) => {
            if str_eq(s.as_str(), link) {
                None
            } else {
                Some(s)
            }
        },
        None => None,
    }
}

/// The error a share reports when the space's access endpoint yields no
/// invite base.
pub fn no_invite_base_error(detail: &str) -> (e: TonkWorkerError)
    ensures
        e matches TonkWorkerError::Internal(m) && m@ == "the space's access endpoint yields no invite base: "@ + detail@,
{
    let mut m = String::from_str("the space's access endpoint yields no invite base: ");
    m.append(detail);
    TonkWorkerError::Internal(m)
}

/// Where a share click stands between the worker's reads and writes.
#[derive(Clone, Debug)]
pub enum ShareState {
    /// Waiting to learn whether an account provider exists.
    AwaitAccount,
    /// Waiting for the space's sync endpoint to be resolved.
    AwaitRemote,
    /// A remote is being attached; the refusal is reported if it fails.
    AwaitAttach { reason: BlockedReason, detail: String },
    /// Waiting for the space's consumer to be provisioned at `access_url`.
    AwaitProvision { access_url: String },
    /// The link is being minted.
    AwaitMint,
    /// The long link is delivered; waiting for the shortener's answer.
    AwaitShort { link: String },
    /// The click is answered.
    Finished(RunInvite),
}

/// What the worker learned since the last step.
#[derive(Clone, Debug)]
pub enum ShareEvent {
    /// Whether the account names a provider.
    AccountChecked { has_provider: bool },
    /// The space's sync endpoint is ready.
    RemoteReady { access_url: String },
    /// No endpoint is ready, for `reason`; whether a page asked, and the
    /// account's provider address, if any.
    RemoteRefused { reason: BlockedReason, detail: String, has_client: bool, provider: Option<String> },
    /// The attach finished, successfully or not.
    AttachFinished { attached: bool },
    /// Provisioning answered; whether the remote is this deployment's own
    /// service.
    Provisioned { outcome: Provisioning, own_service: bool },
    /// The link was minted.
    Minted { link: String },
    /// The shortener answered (`None` when it failed).
    Shortened { short: Option<String> },
}

/// What the worker does next.
#[derive(Clone, Debug)]
pub enum ShareAction {
    /// Report that sharing needs an account (with
    /// `account_required_detail`).
    BlockAccountRequired,
    /// Report the refusal to the share control.
    Block { reason: BlockedReason, detail: String },
    /// Ask the requesting page to add an account.
    RequestAccountLink,
    /// Attach the provider as the space's remote.
    Attach { provider: String },
    /// Mint the invite for the endpoint.
    Mint { access_url: String },
    /// Deliver the link to the share control.
    Deliver { link: String },
    /// Ask the shortener for a short form of the link.
    Shorten { link: String },
}

/// The step a share takes on an event: the next state and the actions, in
/// order. With no account there is nothing to share under; a missing
/// endpoint is repaired (an account is asked for, a provider attached)
/// where it can be and reported otherwise; a definite refusal by this
/// deployment's own service stops the mint; a minted link is delivered at
/// once and replaced by its short form when that differs. An event the
/// state does not expect leaves it as it is.
pub open spec fn share_transition(s: ShareState, e: ShareEvent) -> (ShareState, Seq<ShareAction>) {
    match (s, e) {
        (ShareState::AwaitAccount, ShareEvent::AccountChecked { has_provider }) => if has_provider {
            (ShareState::AwaitRemote, Seq::empty())
        } else {
            (ShareState::Finished(RunInvite::Settled), seq![ShareAction::BlockAccountRequired])
        },
        (ShareState::AwaitRemote, ShareEvent::RemoteReady { access_url }) => (
            ShareState::AwaitProvision { access_url },
            Seq::empty(),
        ),
        (ShareState::AwaitRemote, ShareEvent::RemoteRefused { reason, detail, has_client, provider }) => {
            let ask: Seq<ShareAction> = if reason is NeedsAccount && has_client {
                seq![ShareAction::RequestAccountLink]
            } else {
                Seq::empty()
            };
            if reason is NotSynced && provider is Some {
                (ShareState::AwaitAttach { reason, detail }, ask.push(ShareAction::Attach { provider: provider->0 }))
            } else {
                (ShareState::Finished(RunInvite::Settled), ask.push(ShareAction::Block { reason, detail }))
            }
        },
        (ShareState::AwaitAttach { reason, detail }, ShareEvent::AttachFinished { attached }) => if attached {
            (ShareState::Finished(RunInvite::Attached), Seq::empty())
        } else {
            (ShareState::Finished(RunInvite::Settled), seq![ShareAction::Block { reason, detail }])
        },
        (ShareState::AwaitProvision { access_url }, ShareEvent::Provisioned { outcome, own_service }) => match outcome {
            Provisioning::Refused { message, retryable } => if own_service && !retryable {
                (
                    ShareState::Finished(RunInvite::Settled),
                    seq![ShareAction::Block { reason: BlockedReason::NotProvisioned, detail: message }],
                )
            } else {
                (ShareState::AwaitMint, seq![ShareAction::Mint { access_url }])
            },
            _ => (ShareState::AwaitMint, seq![ShareAction::Mint { access_url }]),
        },
        (ShareState::AwaitMint, ShareEvent::Minted { link }) => (
            ShareState::AwaitShort { link },
            seq![ShareAction::Deliver { link }, ShareAction::Shorten { link }],
        ),
        (ShareState::AwaitShort { link }, ShareEvent::Shortened { short }) => match short {
            Some(x) => if x@ != link@ {
                (ShareState::Finished(RunInvite::Settled), seq![ShareAction::Deliver { link: x }])
            } else {
                (ShareState::Finished(RunInvite::Settled), Seq::empty())
            },
            None => (ShareState::Finished(RunInvite::Settled), Seq::empty()),
        },
        (s, _) => (s, Seq::empty()),
    }
}

/// Advance a share click by one event. The worker performs the actions in
/// order and feeds back what they learned.
pub fn share_step(state: ShareState, event: ShareEvent) -> (r: (ShareState, Vec<ShareAction>))
    ensures
        r.0 == share_transition(state, event).0,
        r.1@ == share_transition(state, event).1,
        (match (state, event) {
            (ShareState::AwaitProvision { access_url }, ShareEvent::Provisioned { outcome, own_service }) => match outcome {
                Provisioning::Refused { message, retryable } => if own_service && !retryable {
                    r.0 == ShareState::Finished(RunInvite::Settled) && r.1@ == seq![
                        ShareAction::Block { reason: BlockedReason::NotProvisioned, detail: message },
                    ]
                } else {
                    r.0 == ShareState::AwaitMint && r.1@ == seq![ShareAction::Mint { access_url }]
                },
                _ => r.0 == ShareState::AwaitMint && r.1@ == seq![ShareAction::Mint { access_url }],
            },
            _ => true,
        }),
{
    match (state, event) {
        (ShareState::AwaitAccount, ShareEvent::AccountChecked { has_provider }) => {
            if has_provider {
                (ShareState::AwaitRemote, Vec::new())
            } else {
                (ShareState::Finished(RunInvite::Settled), vec![ShareAction::BlockAccountRequired])
            }
        },
        (ShareState::AwaitRemote, ShareEvent::RemoteReady { access_url }) => {
            (ShareState::AwaitProvision { access_url }, Vec::new())
        },
        (ShareState::AwaitRemote, ShareEvent::RemoteRefused { reason, detail, has_client, provider }) => {
            let mut actions: Vec<ShareAction> = Vec::new();
            let ask = match reason {
                BlockedReason::NeedsAccount => has_client,
                _ => false,
            };
            if ask {
                actions.push(ShareAction::RequestAccountLink);
            }
            let not_synced = match reason {
                BlockedReason::NotSynced => true,
                _ => false,
            };
            match provider {
                Some(p) => {
                    if not_synced {
                        actions.push(ShareAction::Attach { provider: p });
                        (ShareState::AwaitAttach { reason, detail }, actions)
                    } else {
                        actions.push(ShareAction::Block { reason, detail });
                        (ShareState::Finished(RunInvite::Settled), actions)
                    }
                },
                None => {
                    actions.push(ShareAction::Block { reason, detail });
                    (ShareState::Finished(RunInvite::Settled), actions)
                },
            }
        },
        (ShareState::AwaitAttach { reason, detail }, ShareEvent::AttachFinished { attached }) => {
            if attached {
                (ShareState::Finished(RunInvite::Attached), Vec::new())
            } else {
                (ShareState::Finished(RunInvite::Settled), vec![ShareAction::Block { reason, detail }])
            }
        },
        (ShareState::AwaitProvision { access_url }, ShareEvent::Provisioned { outcome, own_service }) => {
            match outcome {
                Provisioning::Refused { message, retryable } => {
                    if own_service && !retryable {
                        (
                            ShareState::Finished(RunInvite::Settled),
                            vec![ShareAction::Block { reason: BlockedReason::NotProvisioned, detail: message }],
                        )
                    } else {
                        (ShareState::AwaitMint, vec![ShareAction::Mint { access_url }])
                    }
                },
                _ => (ShareState::AwaitMint, vec![ShareAction::Mint { access_url }]),
            }
        },
        (ShareState::AwaitMint, ShareEvent::Minted { link }) => {
            let again = link.clone();
            let also = link.clone();
            (ShareState::AwaitShort { link }, vec![ShareAction::Deliver { link: again }, ShareAction::Shorten { link: also }])
        },
        (ShareState::AwaitShort { link }, ShareEvent::Shortened { short }) => {
            match short {
                Some(x) => {
                    if str_eq(x.as_str(), link.as_str()) {
                        (ShareState::Finished(RunInvite::Settled), Vec::new())
                    } else {
                        (ShareState::Finished(RunInvite::Settled), vec![ShareAction::Deliver { link: x }])
                    }
                },
                None => (ShareState::Finished(RunInvite::Settled), Vec::new()),
            }
        },
        (s, _) => (s, Vec::new()),
    }
}

/// Only this deployment's own service can stop a share at provisioning,
/// and only with a refusal that is not worth retrying: any other answer
/// (a success, a recorded consumer, a failure, a retryable refusal, or
/// any refusal from a foreign service) goes on to mint the link at the
/// endpoint being provisioned, as the only action.
pub proof fn law_only_our_definite_refusal_stops_a_share(access_url: String, outcome: Provisioning, own_service: bool)
    requires
        !(own_service && outcome matches Provisioning::Refused { retryable: false, .. }),
    ensures
        ({
            let (next, actions) = share_transition(
                ShareState::AwaitProvision { access_url },
                ShareEvent::Provisioned { outcome, own_service },
            );
            &&& next == ShareState::AwaitMint
            &&& actions =~= seq![ShareAction::Mint { access_url }]
        }),
{
}

/// A definite refusal by this deployment's own service settles the share
/// with a not-provisioned block carrying the service's message, and mints
/// nothing.
pub proof fn law_our_definite_refusal_blocks(access_url: String, message: String)
    ensures
        ({
            let (next, actions) = share_transition(
                ShareState::AwaitProvision { access_url },
                ShareEvent::Provisioned { outcome: Provisioning::Refused { message, retryable: false }, own_service: true },
            );
            &&& next == ShareState::Finished(RunInvite::Settled)
            &&& actions =~= seq![ShareAction::Block { reason: BlockedReason::NotProvisioned, detail: message }]
        }),
{
}

/// A settled share click stays settled: whatever arrives afterwards, it
/// takes no further action.
pub proof fn law_settled_share_stays_settled(r: RunInvite, e: ShareEvent)
    ensures
        share_transition(ShareState::Finished(r), e) == (ShareState::Finished(r), Seq::<ShareAction>::empty()),
{
}

/// A share never mints without an endpoint: from the start, the only
/// event that leads toward a mint is an account that names a provider,
/// and from there only a ready endpoint.
pub proof fn law_no_mint_without_endpoint(e1: ShareEvent, e2: ShareEvent)
    ensures
        ({
            let (s1, a1) = share_transition(ShareState::AwaitAccount, e1);
            let (s2, a2) = share_transition(s1, e2);
            &&& forall|k: int| 0 <= k < a1.len() ==> !(#[trigger] a1[k] is Mint)
            &&& forall|k: int| 0 <= k < a2.len() ==> !(#[trigger] a2[k] is Mint)
            &&& (s2 is AwaitProvision ==> (e1 matches ShareEvent::AccountChecked { has_provider } && has_provider
                && e2 is RemoteReady))
        }),
{
    let (s1, a1) = share_transition(ShareState::AwaitAccount, e1);
    let (s2, a2) = share_transition(s1, e2);
    assert forall|k: int| 0 <= k < a2.len() implies !(#[trigger] a2[k] is Mint) by {
        match e2 {
            ShareEvent::RemoteRefused { reason, detail, has_client, provider } => {
                if s1 is AwaitRemote {
                    if reason is NeedsAccount && has_client {
                        assert(k == 0 || k == 1);
                    }
                }
            },
            _ => {},
        }
    }
}

} // verus!
