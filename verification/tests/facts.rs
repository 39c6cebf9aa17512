use tonk_worker::facts::{
    enable_sync_from_facts, invite_space_from_facts, open_from_facts, remote_from_facts, text_fact, Fact, FactValue,
    ENABLE_SYNC_REMOTE_ATTR, ENABLE_SYNC_SHARE_ATTR, ENABLE_SYNC_SPACE_ATTR, INVITE_SPACE_ATTR, LEGACY_REMOTE_ATTR,
    OPEN_ATTR, REMOTE_ATTR,
};

const URL: &str = "http://127.0.0.1:8080/ucan/";
const DID: &str = "did:key:zTargetSpace";

fn fact(attribute: &str, value: FactValue) -> Fact {
    Fact { attribute: attribute.to_string(), value }
}

fn name_fact() -> Fact {
    fact("dom.event.current-target.elements.name/value", FactValue::Text("test".to_string()))
}

fn time_fact() -> Fact {
    fact("dom.event/time-stamp", FactValue::Other)
}

#[test]
fn it_does_not_open_a_space_by_default() {
    assert!(!open_from_facts(&vec![name_fact()]), "a create carrying no `open` field creates only");
}

#[test]
fn it_opens_a_space_when_the_form_asks() {
    let facts = vec![name_fact(), fact(OPEN_ATTR, FactValue::Text("true".to_string()))];
    assert!(open_from_facts(&facts), "the Hub's hidden `open=true` input navigates");
}

#[test]
fn it_honours_an_explicit_refusal_to_open() {
    for text in ["false", "0", "", "  "] {
        let facts = vec![name_fact(), fact(OPEN_ATTR, FactValue::Text(text.to_string()))];
        assert!(!open_from_facts(&facts), "`open={text:?}` must not navigate");
    }
}

#[test]
fn it_reads_boolean_and_entity_open_flags() {
    assert!(open_from_facts(&vec![fact(OPEN_ATTR, FactValue::Boolean(true))]));
    assert!(!open_from_facts(&vec![fact(OPEN_ATTR, FactValue::Boolean(false))]));
    assert!(!open_from_facts(&vec![fact(OPEN_ATTR, FactValue::Entity("case:false".to_string()))]));
    assert!(open_from_facts(&vec![fact(OPEN_ATTR, FactValue::Entity("case:true".to_string()))]));
}

#[test]
fn it_reads_a_string_remote() {
    let facts = vec![name_fact(), fact(LEGACY_REMOTE_ATTR, FactValue::Text(URL.to_string()))];
    assert_eq!(remote_from_facts(&facts).as_deref(), Some(URL));
}

#[test]
fn it_reads_an_entity_remote() {
    let facts = vec![name_fact(), fact(LEGACY_REMOTE_ATTR, FactValue::Entity(URL.to_string()))];
    assert_eq!(remote_from_facts(&facts).as_deref(), Some(URL));
}

#[test]
fn it_reads_the_commands_own_remote_attribute() {
    let facts = vec![name_fact(), fact(REMOTE_ATTR, FactValue::Text(URL.to_string()))];
    assert_eq!(remote_from_facts(&facts).as_deref(), Some(URL));
}

#[test]
fn it_returns_none_without_a_remote_fact() {
    assert!(remote_from_facts(&vec![name_fact()]).is_none());
}

#[test]
fn it_treats_a_blank_remote_as_none() {
    let facts = vec![name_fact(), fact(LEGACY_REMOTE_ATTR, FactValue::Text("   ".to_string()))];
    assert!(remote_from_facts(&facts).is_none());
}

#[test]
fn it_trims_a_padded_remote() {
    let facts = vec![fact(REMOTE_ATTR, FactValue::Text(format!("  {URL}\t")))];
    assert_eq!(remote_from_facts(&facts).as_deref(), Some(URL));
}

#[test]
fn it_reads_an_entity_space() {
    let facts = vec![time_fact(), fact(INVITE_SPACE_ATTR, FactValue::Entity(DID.to_string()))];
    assert_eq!(invite_space_from_facts(&facts).as_deref(), Some(DID));
}

#[test]
fn it_reads_a_string_space() {
    let facts = vec![time_fact(), fact(INVITE_SPACE_ATTR, FactValue::Text(DID.to_string()))];
    assert_eq!(invite_space_from_facts(&facts).as_deref(), Some(DID));
}

#[test]
fn it_returns_none_without_a_space_fact() {
    assert!(invite_space_from_facts(&vec![time_fact()]).is_none());
}

#[test]
fn it_treats_a_blank_space_as_none() {
    let facts = vec![time_fact(), fact(INVITE_SPACE_ATTR, FactValue::Text("   ".to_string()))];
    assert!(invite_space_from_facts(&facts).is_none());
}

#[test]
fn it_reads_the_first_matching_text_fact() {
    let facts = vec![
        fact("other", FactValue::Text("x".to_string())),
        fact("wanted", FactValue::Text(" first ".to_string())),
        fact("wanted", FactValue::Text("second".to_string())),
    ];
    assert_eq!(text_fact(&facts, "wanted").as_deref(), Some("first"));
    assert!(text_fact(&facts, "missing").is_none());
}

#[test]
fn it_reads_enable_sync_arguments() {
    let facts = vec![
        fact(ENABLE_SYNC_SPACE_ATTR, FactValue::Entity(DID.to_string())),
        fact(ENABLE_SYNC_REMOTE_ATTR, FactValue::Text(URL.to_string())),
        fact(ENABLE_SYNC_SHARE_ATTR, FactValue::Text("yes".to_string())),
    ];
    let args = enable_sync_from_facts(&facts);
    assert_eq!(args.space.as_deref(), Some(DID));
    assert_eq!(args.remote.as_deref(), Some(URL));
    assert!(args.share);
    let bare = enable_sync_from_facts(&vec![fact(ENABLE_SYNC_SPACE_ATTR, FactValue::Text(DID.to_string()))]);
    assert!(bare.remote.is_none());
    assert!(!bare.share);
}
