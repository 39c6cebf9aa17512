use tonk_worker::seed::{decode_seed_version, encode_seed_version, seed_version, SEED_NONE};

#[test]
fn it_identifies_a_seed_by_its_content() {
    let one = seed_version("concept!: &a\n");
    let again = seed_version("concept!: &a\n");
    let other = seed_version("concept!: &b\n");
    assert_eq!(one, again, "the same bytes give the same identity");
    assert_ne!(one, other, "different bytes give a different identity");
    assert!(one.starts_with("seed:"), "the identity must be a usable entity: {one}");
    assert_eq!(one.len(), 69);
}

#[test]
fn it_hashes_with_blake3() {
    assert_eq!(seed_version(""), "seed:af1349b9f5f9a1a6a0404dea36dcc9499bcb25c9adc112b7cc9a93cae41f3262");
    assert_eq!(SEED_NONE, "seed:none");
}

#[test]
fn it_round_trips_a_seed_revision() {
    let bytes: Vec<u8> = (0u8..32).collect();
    let encoded = encode_seed_version(&bytes);
    assert_eq!(decode_seed_version(&encoded), Some(bytes), "the encoding round-trips");
    assert!(
        decode_seed_version("not-a-version").is_none(),
        "a value that is not a version decodes to nothing rather than a wrong one"
    );
}

#[test]
fn it_encodes_leading_zero_bytes_as_ones() {
    assert_eq!(encode_seed_version(&[0, 0, 97, 98, 99]), "11ZiCa");
    assert_eq!(decode_seed_version("11ZiCa"), Some(vec![0, 0, 97, 98, 99]));
    assert_eq!(decode_seed_version(""), Some(vec![]));
    assert!(decode_seed_version(&"2".repeat(200)).is_none(), "a text too long for the decoder is no version");
    let long = "2".repeat(133);
    let bytes = decode_seed_version(&long).expect("a long canonical text still decodes");
    assert_eq!(encode_seed_version(&bytes), long);
    assert!(decode_seed_version(&"1".repeat(140)).is_none());
}

#[test]
fn it_decodes_every_text_the_buffer_holds() {
    let text = format!("{}{}", "1".repeat(58), "2".repeat(100));
    let bytes = decode_seed_version(&text).expect("58 zero bytes and a 100-digit number fit the buffer");
    assert!(bytes[..58].iter().all(|b| *b == 0));
    assert_ne!(bytes[58], 0);
    assert_eq!(encode_seed_version(&bytes), text);
}

#[test]
fn it_round_trips_the_longest_supported_key() {
    let bytes = vec![255u8; 132];
    let encoded = encode_seed_version(&bytes);
    assert_eq!(decode_seed_version(&encoded), Some(bytes));
    let zeros = vec![0u8; 132];
    assert_eq!(encode_seed_version(&zeros), "1".repeat(132));
    assert_eq!(decode_seed_version(&"1".repeat(132)), Some(zeros));
    let mixed: Vec<u8> = (0u8..132).collect();
    assert_eq!(decode_seed_version(&encode_seed_version(&mixed)), Some(mixed));
    let too_long = vec![1u8; 133];
    assert!(decode_seed_version(&encode_seed_version(&too_long)).is_none(), "past the buffer nothing decodes");
}

#[test]
fn it_decodes_a_long_text_whose_number_fits() {
    let text = format!("2{}", "1".repeat(180));
    let bytes = decode_seed_version(&text).expect("a 181-digit number below 2^1056 fits the buffer");
    assert_eq!(bytes.len(), 132);
    assert_eq!(encode_seed_version(&bytes), text);
    let padded = format!("{}{}", "1".repeat(10), text);
    assert!(decode_seed_version(&padded).is_none(), "ten zero bytes more would overrun the buffer");
}

#[test]
fn it_refuses_characters_outside_the_alphabet() {
    for text in ["0", "O", "I", "l", "3mJr0", "4kl8", "s!5<", "Zi\u{e9}a"] {
        assert!(decode_seed_version(text).is_none(), "{text} is not base58");
    }
}

use tonk_worker::seed::{alternate_key, prior_seed_retractions, seed_check_outcome, seed_routes, HistoryRecord, InstalledSeed};

fn record(assertion: bool, attribute: &str, entity: &str) -> HistoryRecord {
    HistoryRecord { assertion, attribute: attribute.to_string(), entity: entity.to_string() }
}

#[test]
fn it_tries_the_other_key_spelling() {
    assert_eq!(alternate_key("did:key:z6MkSpace"), "z6MkSpace");
    assert_eq!(alternate_key("z6MkSpace"), "did:key:z6MkSpace");
}

#[test]
fn it_reports_whether_an_update_is_waiting() {
    assert!(seed_check_outcome(None, "library").is_none(), "a space with no seed record is not a failed check");
    let current = seed_version("library v1");
    let installed = InstalledSeed { seed: current.clone(), source: "/library/core.yaml".to_string() };
    assert!(seed_check_outcome(Some(installed.clone()), "library v1").is_none(), "an up-to-date space waits for nothing");
    let found = seed_check_outcome(Some(installed), "library v2").expect("a newer seed waits");
    assert_eq!(found.seed, seed_version("library v2"));
    assert_eq!(found.source, "/library/core.yaml");
    assert_eq!(found.replaces, current);
}

#[test]
fn it_withdraws_only_what_the_prior_seed_asserted() {
    let records = vec![
        record(true, "xyz.tonk.route/path", "route:kept"),
        record(false, "xyz.tonk.route/path", "route:older"),
        record(true, "xyz.tonk.route/concept", "route:kept"),
    ];
    let retract = prior_seed_retractions(&records);
    assert_eq!(retract.len(), 2);
    assert!(retract.iter().all(|r| r.assertion));
}

#[test]
fn it_reads_the_routes_a_seed_installed() {
    let records = vec![
        record(true, "xyz.tonk.route/path", "route:a"),
        record(true, "xyz.tonk.route/path", "route:a"),
        record(false, "xyz.tonk.route/path", "route:gone"),
        record(true, "xyz.tonk.route/concept", "route:b"),
        record(true, "xyz.tonk.route/path", "route:c"),
    ];
    assert_eq!(seed_routes(&records), vec!["route:a".to_string(), "route:c".to_string()]);
}
