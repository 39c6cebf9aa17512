use tonk_worker::handoff::{handoff_origin, handoff_pending, handoff_result, handoff_without_account, MintedHandoff};

#[test]
fn it_walks_the_handoff_states() {
    let s = handoff_without_account("did:key:zProfile".to_string());
    assert!(s.status.starts_with("Create an account or sign in to connect an agent."));
    assert!(s.link.is_empty());
    assert_eq!(s.account, "did:key:zProfile");
    assert_eq!(handoff_pending("p".to_string()).status, "Generating account-scoped handoff…");
    assert_eq!(handoff_origin(None), "https://tonk.network");
    assert_eq!(handoff_origin(Some("https://me.example".to_string())), "https://me.example");
}

#[test]
fn it_only_hands_out_a_link_for_the_current_account() {
    let minted = MintedHandoff { url: "https://x/h".to_string(), root: "did:key:zRoot".to_string(), root_bytes: vec![1, 2] };
    let ready = handoff_result(Ok(minted.clone()), "did:key:zRoot".to_string(), &vec![1, 2], "p".to_string());
    assert_eq!(ready.status, "ready");
    assert_eq!(ready.link, "https://x/h");
    assert_eq!(ready.account, "did:key:zRoot");
    let stale = handoff_result(Ok(minted.clone()), "did:key:zNew".to_string(), &vec![1, 2], "p".to_string());
    assert_eq!(stale.status, "Account changed; generate a new handoff.");
    assert_eq!(stale.account, "did:key:zNew");
    let rekeyed = handoff_result(Ok(minted), "did:key:zRoot".to_string(), &vec![1, 3], "p".to_string());
    assert_eq!(rekeyed.status, "Account changed; generate a new handoff.");
    let failed = handoff_result(Err("offline".to_string()), "r".to_string(), &vec![], "p".to_string());
    assert_eq!(failed.status, "Could not create an agent handoff: offline");
    assert_eq!(failed.account, "p");
}
