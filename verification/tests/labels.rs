use tonk_worker::labels::next_untitled_label;

fn labels(labels: &[&str]) -> Vec<String> {
    labels.iter().map(|label| label.to_string()).collect()
}

#[test]
fn it_starts_at_bare_untitled() {
    assert_eq!(next_untitled_label(labels(&[])), "Untitled");
}

#[test]
fn it_ignores_named_spaces() {
    assert_eq!(next_untitled_label(labels(&["pictures", "notes"])), "Untitled");
}

#[test]
fn it_numbers_from_two_after_the_bare_label() {
    assert_eq!(next_untitled_label(labels(&["Untitled", "pictures"])), "Untitled 2");
}

#[test]
fn it_fills_the_smallest_gap() {
    assert_eq!(next_untitled_label(labels(&["Untitled", "Untitled 3"])), "Untitled 2");
    assert_eq!(next_untitled_label(labels(&["Untitled 2", "Untitled 3"])), "Untitled");
}

#[test]
fn it_counts_past_a_dense_run() {
    assert_eq!(
        next_untitled_label(labels(&["Untitled", "Untitled 2", "Untitled 3"])),
        "Untitled 4",
    );
}

#[test]
fn it_ignores_near_misses() {
    assert_eq!(
        next_untitled_label(labels(&["Untitled draft", "Untitled2", "Untitled 0", "untitled"])),
        "Untitled",
    );
}

#[test]
fn it_trims_surrounding_whitespace() {
    assert_eq!(next_untitled_label(labels(&["  Untitled  "])), "Untitled 2");
}

#[test]
fn it_skips_a_label_numbered_past_the_run() {
    assert_eq!(
        next_untitled_label(labels(&["Untitled", "Untitled 2", "Untitled 99"])),
        "Untitled 3",
    );
}

#[test]
fn it_ignores_a_leading_zero_free_overflowing_ordinal() {
    assert_eq!(
        next_untitled_label(labels(&["Untitled", "Untitled 99999999999999999999999"])),
        "Untitled 2",
    );
}

#[test]
fn it_never_reuses_an_existing_label() {
    let existing = labels(&["Untitled", " Untitled 2", "Untitled 4", "Untitled 3 "]);
    let picked = next_untitled_label(existing.clone());
    assert_eq!(picked, "Untitled 5");
    assert!(existing.iter().all(|l| l.trim() != picked));
}
