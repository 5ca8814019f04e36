use idasen::contains_substring;

#[test]
fn finds_a_substring() {
    assert!(contains_substring("IKEA Desk 8e:d8", "Desk"));
    assert!(contains_substring("Desk", "Desk"));
    assert!(contains_substring("standing Desk", "Desk"));
}

#[test]
fn matching_is_case_sensitive() {
    assert!(!contains_substring("desk lamp", "Desk"));
    assert!(!contains_substring("DESK", "Desk"));
}

#[test]
fn empty_needle_always_matches() {
    assert!(contains_substring("anything", ""));
    assert!(contains_substring("", ""));
}

#[test]
fn needle_longer_than_hay_never_matches() {
    assert!(!contains_substring("Des", "Desk"));
    assert!(!contains_substring("", "Desk"));
}
