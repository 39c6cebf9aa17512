use tonk_worker::roster::build_members;

fn row(a: &str, b: &str) -> (String, String) {
    (a.to_string(), b.to_string())
}

#[test]
fn it_orders_self_first_then_named_then_unnamed() {
    let memberships = vec![
        row("m:carol", "did:key:zCarol"),
        row("m:zed", "did:key:zZed"),
        row("m:me", "did:key:zMe"),
        row("m:bob", "did:key:zBob"),
        row("m:anon", "did:key:zAnon"),
    ];
    let names = vec![row("m:carol", "carol"), row("m:bob", "bob"), row("m:me", "me"), row("m:zed", "zed")];
    let members = build_members(&memberships, &names, &vec![], &vec![], &Some("did:key:zMe".to_string()));
    let order: Vec<&str> = members.iter().map(|m| m.did.as_str()).collect();
    assert_eq!(order, vec!["did:key:zMe", "did:key:zBob", "did:key:zCarol", "did:key:zZed", "did:key:zAnon"]);
    assert!(members[0].is_self);
    assert!(members[1..].iter().all(|m| !m.is_self));
}

#[test]
fn it_reports_the_founder_alone() {
    let members = build_members(
        &vec![row("m:founder", "did:key:zFounder")],
        &vec![row("m:founder", "brave-lynx")],
        &vec![],
        &vec![],
        &Some("did:key:zFounder".to_string()),
    );
    assert_eq!(members.len(), 1, "exactly the founder");
    assert!(members[0].is_self, "founder is the active profile");
    assert!(members[0].invited_by.is_none(), "founder has no inviter");
    assert_eq!(members[0].name.as_deref(), Some("brave-lynx"), "founder is named");
}

#[test]
fn it_resolves_inviters_through_the_invitation_and_lets_later_rows_win() {
    let memberships = vec![row("m:guest", "did:key:zGuest"), row("m:other", "did:key:zOther")];
    let names = vec![row("m:guest", "old"), row("m:guest", "new")];
    let via = vec![row("m:guest", "inv:1"), row("m:other", "inv:unknown")];
    let invitations = vec![row("inv:1", "did:key:zHost")];
    let members = build_members(&memberships, &names, &via, &invitations, &None);
    let guest = members.iter().find(|m| m.did == "did:key:zGuest").expect("guest");
    assert_eq!(guest.name.as_deref(), Some("new"));
    assert_eq!(guest.invited_by.as_deref(), Some("did:key:zHost"));
    let other = members.iter().find(|m| m.did == "did:key:zOther").expect("other");
    assert!(other.invited_by.is_none(), "an unknown invitation names no inviter");
    assert!(members.iter().all(|m| !m.is_self));
    assert_eq!(members[0].did, "did:key:zGuest", "named before unnamed");
}

#[test]
fn it_breaks_name_ties_by_did() {
    let memberships = vec![row("m:2", "did:key:zB"), row("m:1", "did:key:zA")];
    let names = vec![row("m:1", "same"), row("m:2", "same")];
    let members = build_members(&memberships, &names, &vec![], &vec![], &None);
    assert_eq!(members[0].did, "did:key:zA");
    assert_eq!(members[1].did, "did:key:zB");
}

#[test]
fn it_keeps_tied_members_in_row_order() {
    let memberships = vec![row("m:1", "did:key:zSame"), row("m:2", "did:key:zSame"), row("m:0", "did:key:zA")];
    let invitations = vec![row("inv:1", "did:key:zFirst"), row("inv:2", "did:key:zSecond")];
    let via = vec![row("m:1", "inv:1"), row("m:2", "inv:2")];
    let members = build_members(&memberships, &vec![], &via, &invitations, &None);
    assert_eq!(members[0].did, "did:key:zA");
    assert_eq!(members[1].invited_by.as_deref(), Some("did:key:zFirst"), "the earlier row stays first");
    assert_eq!(members[2].invited_by.as_deref(), Some("did:key:zSecond"));
}
