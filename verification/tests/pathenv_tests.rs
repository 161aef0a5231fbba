use frs_manager::pathenv::{add_env_var, remove_env_var, split_path, join_path, str_contains};

#[test]
fn add_appends_missing_segment() {
    let new = add_env_var("C:\\Windows;C:\\Tools", "C:\\Program Files\\FRS_Manager\\bin");
    assert_eq!(
        new.as_deref(),
        Some("C:\\Windows;C:\\Tools;C:\\Program Files\\FRS_Manager\\bin")
    );
}

#[test]
fn add_is_a_no_op_when_segment_present() {
    let new = add_env_var("C:\\Windows;C:\\frs\\bin;C:\\Tools", "C:\\frs\\bin");
    assert_eq!(new, None);
}

#[test]
fn add_treats_substring_containment_as_present() {
    // membership is literal substring containment, so a segment that only
    // occurs inside a longer entry still counts as present
    let new = add_env_var("C:\\frs\\binextra", "C:\\frs\\bin");
    assert_eq!(new, None);
}

#[test]
fn remove_filters_out_exact_segments() {
    let new = remove_env_var("C:\\Windows;C:\\frs\\bin;C:\\Tools", "C:\\frs\\bin");
    assert_eq!(new.as_deref(), Some("C:\\Windows;C:\\Tools"));
}

#[test]
fn remove_drops_every_equal_segment() {
    let new = remove_env_var("a;x;b;x", "x");
    assert_eq!(new.as_deref(), Some("a;b"));
}

#[test]
fn remove_without_occurrence_is_a_no_op() {
    let new = remove_env_var("C:\\Windows;C:\\Tools", "C:\\frs\\bin");
    assert_eq!(new, None);
}

#[test]
fn remove_of_substring_only_occurrence_keeps_value_unchanged() {
    // the segment occurs only inside a longer entry: the write happens but
    // rewrites the same value
    let new = remove_env_var("C:\\frs\\binextra;C:\\Tools", "C:\\frs\\bin");
    assert_eq!(new.as_deref(), Some("C:\\frs\\binextra;C:\\Tools"));
}

#[test]
fn add_then_remove_restores_original_value() {
    let original = "C:\\Windows;C:\\Tools";
    let segment = "C:\\Program Files\\FRS_Manager\\bin";
    let added = add_env_var(original, segment).expect("segment was absent");
    let removed = remove_env_var(&added, segment).expect("segment was just added");
    assert_eq!(removed, original);
}

#[test]
fn second_add_writes_nothing() {
    let original = "C:\\Windows;C:\\Tools";
    let segment = "C:\\frs\\bin";
    let added = add_env_var(original, segment).expect("segment was absent");
    assert_eq!(add_env_var(&added, segment), None);
}

#[test]
fn add_to_empty_value_keeps_an_empty_segment() {
    let new = add_env_var("", "C:\\frs\\bin");
    assert_eq!(new.as_deref(), Some(";C:\\frs\\bin"));
}

#[test]
fn split_and_join_are_inverse() {
    let value = "C:\\Windows;;C:\\Tools";
    let segments = split_path(value);
    assert_eq!(segments, vec!["C:\\Windows", "", "C:\\Tools"]);
    assert_eq!(join_path(&segments), value);
}

#[test]
fn split_of_empty_value_is_one_empty_segment() {
    assert_eq!(split_path(""), vec![""]);
}

#[test]
fn contains_is_case_sensitive() {
    assert!(str_contains("C:\\frs\\bin", "frs"));
    assert!(!str_contains("C:\\frs\\bin", "FRS"));
    assert!(str_contains("abc", ""));
    assert!(!str_contains("ab", "abc"));
}
