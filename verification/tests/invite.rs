use tonk_worker::errors::TonkWorkerError;
use tonk_worker::invite::{
    account_required_detail, after_attach, attributed_link, invite_link, invite_status_for, long_invite_url,
    no_invite_base_error, provisioning_block, refusal_plan, remote_is_own_service, shortened_link, BlockedReason,
    InviteStatus, Provisioning, RunInvite,
};

#[test]
fn it_keeps_a_repairable_refusal_open() {
    assert_eq!(
        invite_status_for(&BlockedReason::NeedsAccount),
        InviteStatus::Requested,
        "the worker is off getting an account; the share has not failed",
    );
    assert_eq!(invite_status_for(&BlockedReason::NotSynced), InviteStatus::Requested, "attaching a remote still ends in a link");
    assert_eq!(invite_status_for(&BlockedReason::Suspended), InviteStatus::Suspended);
    assert_eq!(invite_status_for(&BlockedReason::UnshareableRemote), InviteStatus::Unshareable);
    assert_eq!(invite_status_for(&BlockedReason::Other("attach-failed".to_string())), InviteStatus::Requested);
    assert_eq!(invite_status_for(&BlockedReason::AccountRequired), InviteStatus::Requested);
}

#[test]
fn it_plans_the_repair_of_a_refusal() {
    let plan = refusal_plan(&BlockedReason::NeedsAccount, true, Some("https://hub/ucan/".to_string()));
    assert!(plan.request_account_link);
    assert!(plan.attach.is_none());
    let plan = refusal_plan(&BlockedReason::NeedsAccount, false, None);
    assert!(!plan.request_account_link);
    let plan = refusal_plan(&BlockedReason::NotSynced, true, Some("https://hub/ucan/".to_string()));
    assert!(!plan.request_account_link);
    assert_eq!(plan.attach.as_deref(), Some("https://hub/ucan/"));
    assert!(refusal_plan(&BlockedReason::NotSynced, true, None).attach.is_none());
    assert_eq!(after_attach(Some(true)), RunInvite::Attached);
    assert_eq!(after_attach(Some(false)), RunInvite::Settled);
    assert_eq!(after_attach(None), RunInvite::Settled);
    assert_eq!(account_required_detail(), "Create an account or log in before sharing this space.");
}

#[test]
fn it_blocks_only_a_definite_refusal_by_our_own_service() {
    let refused = Provisioning::Refused { message: "no active customer".to_string(), retryable: false };
    assert_eq!(provisioning_block(&refused, true).as_deref(), Some("no active customer"));
    assert!(provisioning_block(&refused, false).is_none());
    let retry = Provisioning::Refused { message: "busy".to_string(), retryable: true };
    assert!(provisioning_block(&retry, true).is_none());
    assert!(provisioning_block(&Provisioning::Recorded, true).is_none());
    assert!(provisioning_block(&Provisioning::Provisioned, true).is_none());
    assert!(provisioning_block(&Provisioning::Failed, true).is_none());
}

#[test]
fn it_recognises_our_own_service_by_origin() {
    assert!(remote_is_own_service("https://sync.tonk.xyz/ucan/", Some("https://sync.tonk.xyz")));
    assert!(remote_is_own_service("https://sync.tonk.xyz:443/ucan/", Some("https://sync.tonk.xyz/other")));
    assert!(!remote_is_own_service("https://other.example/ucan/", Some("https://sync.tonk.xyz")));
    assert!(!remote_is_own_service("http://sync.tonk.xyz/ucan/", Some("https://sync.tonk.xyz")));
    assert!(!remote_is_own_service("not a url", Some("https://sync.tonk.xyz")));
    assert!(!remote_is_own_service("https://sync.tonk.xyz/ucan/", None));
}

#[test]
fn it_builds_the_long_invite_url_with_the_seed_as_fragment() {
    let url = long_invite_url("https://tonk.example/join", "PROOF", "&remote=https%3A%2F%2Fhub%2Fucan%2F", "SEED");
    assert_eq!(url, "https://tonk.example/join?access=PROOF&remote=https%3A%2F%2Fhub%2Fucan%2F#SEED");
    let url = long_invite_url("https://tonk.example/join", "PROOF", "", "SEED");
    assert!(url.starts_with("https://tonk.example/join?access=PROOF"));
    assert!(url.ends_with("#SEED"));
    assert!(!url.contains("remote="));
}

#[test]
fn it_encodes_the_chain_and_seed_in_base58() {
    let url = invite_link("https://tonk.example/join", b"abc", "", &[0, 1]);
    assert_eq!(url, "https://tonk.example/join?access=ZiCa#12");
}

#[test]
fn it_prefers_the_attributed_and_shortened_links() {
    assert_eq!(attributed_link("long".to_string(), Some("long&tonk_channel=reshare".to_string())), "long&tonk_channel=reshare");
    assert_eq!(attributed_link("long".to_string(), None), "long");
    assert_eq!(shortened_link("https://a/long", Some("https://a/@x".to_string())).as_deref(), Some("https://a/@x"));
    assert!(shortened_link("https://a/long", Some("https://a/long".to_string())).is_none());
    assert!(shortened_link("https://a/long", None).is_none());
    assert!(matches!(
        no_invite_base_error("bad"),
        TonkWorkerError::Internal(ref m) if m == "the space's access endpoint yields no invite base: bad"
    ));
}

use tonk_worker::invite::{share_step, ShareAction, ShareEvent, ShareState};

#[test]
fn it_walks_a_share_from_click_to_short_link() {
    let (s, a) = share_step(ShareState::AwaitAccount, ShareEvent::AccountChecked { has_provider: true });
    assert!(matches!(s, ShareState::AwaitRemote) && a.is_empty());
    let (s, a) = share_step(s, ShareEvent::RemoteReady { access_url: "https://hub/ucan/".to_string() });
    assert!(matches!(s, ShareState::AwaitProvision { .. }) && a.is_empty());
    let (s, a) = share_step(s, ShareEvent::Provisioned { outcome: Provisioning::Recorded, own_service: true });
    assert!(matches!(s, ShareState::AwaitMint));
    assert!(matches!(a.as_slice(), [ShareAction::Mint { access_url }] if access_url == "https://hub/ucan/"));
    let (s, a) = share_step(s, ShareEvent::Minted { link: "https://t/join?access=P#S".to_string() });
    assert!(matches!(s, ShareState::AwaitShort { .. }));
    assert!(matches!(a.as_slice(), [ShareAction::Deliver { .. }, ShareAction::Shorten { .. }]));
    let (s, a) = share_step(s, ShareEvent::Shortened { short: Some("https://t/@abc".to_string()) });
    assert!(matches!(s, ShareState::Finished(RunInvite::Settled)));
    assert!(matches!(a.as_slice(), [ShareAction::Deliver { link }] if link == "https://t/@abc"));
}

#[test]
fn it_refuses_a_share_without_an_account() {
    let (s, a) = share_step(ShareState::AwaitAccount, ShareEvent::AccountChecked { has_provider: false });
    assert!(matches!(s, ShareState::Finished(RunInvite::Settled)));
    assert!(matches!(a.as_slice(), [ShareAction::BlockAccountRequired]));
}

#[test]
fn it_attaches_before_minting_a_not_synced_space() {
    let refused = ShareEvent::RemoteRefused {
        reason: BlockedReason::NotSynced,
        detail: "no remote".to_string(),
        has_client: true,
        provider: Some("https://hub/ucan/".to_string()),
    };
    let (s, a) = share_step(ShareState::AwaitRemote, refused);
    assert!(matches!(s, ShareState::AwaitAttach { .. }));
    assert!(matches!(a.as_slice(), [ShareAction::Attach { provider }] if provider == "https://hub/ucan/"));
    let (done, a) = share_step(s.clone(), ShareEvent::AttachFinished { attached: true });
    assert!(matches!(done, ShareState::Finished(RunInvite::Attached)) && a.is_empty());
    let (done, a) = share_step(s, ShareEvent::AttachFinished { attached: false });
    assert!(matches!(done, ShareState::Finished(RunInvite::Settled)));
    assert!(matches!(a.as_slice(), [ShareAction::Block { reason: BlockedReason::NotSynced, .. }]));
}

#[test]
fn it_asks_for_an_account_and_reports_the_refusal() {
    let refused = ShareEvent::RemoteRefused {
        reason: BlockedReason::NeedsAccount,
        detail: "sign in".to_string(),
        has_client: true,
        provider: None,
    };
    let (s, a) = share_step(ShareState::AwaitRemote, refused);
    assert!(matches!(s, ShareState::Finished(RunInvite::Settled)));
    assert!(matches!(a.as_slice(), [ShareAction::RequestAccountLink, ShareAction::Block { reason: BlockedReason::NeedsAccount, .. }]));
}

#[test]
fn it_stops_a_share_our_service_refused() {
    let (s, a) = share_step(
        ShareState::AwaitProvision { access_url: "https://hub/ucan/".to_string() },
        ShareEvent::Provisioned {
            outcome: Provisioning::Refused { message: "inactive".to_string(), retryable: false },
            own_service: true,
        },
    );
    assert!(matches!(s, ShareState::Finished(RunInvite::Settled)));
    assert!(matches!(a.as_slice(), [ShareAction::Block { reason: BlockedReason::NotProvisioned, detail }] if detail == "inactive"));
    let (s, a) = share_step(ShareState::Finished(RunInvite::Settled), ShareEvent::AccountChecked { has_provider: true });
    assert!(matches!(s, ShareState::Finished(RunInvite::Settled)) && a.is_empty(), "a settled share stays settled");
}
