use nstow::error::StowError;
use nstow::filter::{Filter, FilterCombo, StowFilters};

fn strings(items: &[&str]) -> Vec<String> {
    items.iter().map(|s| s.to_string()).collect()
}

#[test]
fn filter_matches_by_search_not_full_match() {
    let filter = Filter::new(strings(&["ab+c"])).unwrap();
    assert!(filter.matches("xxabbbcxx"));
    assert!(!filter.matches("ab+c"));
    assert!(!filter.matches("ac"));
}

#[test]
fn filter_matches_when_any_pattern_matches() {
    let filter = Filter::new(strings(&["^zsh", "vim$"])).unwrap();
    assert!(filter.matches("zshrc"));
    assert!(filter.matches("neovim"));
    assert!(!filter.matches("bashrc"));
}

#[test]
fn empty_filter_matches_nothing() {
    let filter = Filter::new(Vec::new()).unwrap();
    assert!(!filter.matches(""));
    assert!(!filter.matches("anything"));
}

#[test]
fn invalid_pattern_is_reported_first_in_order() {
    let err = Filter::new(strings(&["ok", "foo(bar", "also(bad"])).unwrap_err();
    assert_eq!(err, StowError::InvalidPattern("foo(bar".to_string()));
}

#[test]
fn only_filter_rejects_whatever_ignore_says() {
    let without = FilterCombo::new(Some(strings(&["^home/"])), None).unwrap();
    let with = FilterCombo::new(Some(strings(&["^home/"])), Some(strings(&["nothing"]))).unwrap();
    let with_matching =
        FilterCombo::new(Some(strings(&["^home/"])), Some(strings(&["etc"]))).unwrap();
    assert!(!without.check_against_filters("etc/passwd"));
    assert!(!with.check_against_filters("etc/passwd"));
    assert!(!with_matching.check_against_filters("etc/passwd"));
}

#[test]
fn combo_accepts_only_and_not_ignored() {
    let combo = FilterCombo::new(Some(strings(&["^home/"])), Some(strings(&["\\.bak$"]))).unwrap();
    assert!(combo.check_against_filters("home/vimrc"));
    assert!(!combo.check_against_filters("home/vimrc.bak"));
}

#[test]
fn ignore_alone_rejects_matches() {
    let combo = FilterCombo::new(None, Some(strings(&["tmp"]))).unwrap();
    assert!(!combo.check_against_filters("a/tmp/b"));
    assert!(combo.check_against_filters("a/b"));
}

#[test]
fn no_filters_accept_everything() {
    let combo = FilterCombo::new(None, None).unwrap();
    assert!(combo.check_against_filters(""));
    assert!(combo.check_against_filters("any/path"));
    let filters = StowFilters::new(None, None, None, None, None).unwrap();
    assert!(filters.check_src("any/path"));
    assert!(filters.check_target("/any/target"));
}

#[test]
fn no_override_set_overrides_nothing() {
    let filters = StowFilters::new(None, None, None, None, None).unwrap();
    assert!(!filters.check_target_override("/home/me/.vimrc"));
    assert!(!filters.check_target_override(""));
}

#[test]
fn override_set_marks_matching_targets() {
    let filters = StowFilters::new(None, None, None, None, Some(strings(&["vimrc$"]))).unwrap();
    assert!(filters.check_target_override("/home/me/.vimrc"));
    assert!(!filters.check_target_override("/home/me/.zshrc"));
}

#[test]
fn source_and_target_filters_are_independent() {
    let filters = StowFilters::new(
        Some(strings(&["^src/"])),
        None,
        None,
        Some(strings(&["^/etc/"])),
        None,
    )
    .unwrap();
    assert!(filters.check_src("src/a"));
    assert!(!filters.check_src("/etc/a"));
    assert!(filters.check_target("src/a"));
    assert!(!filters.check_target("/etc/a"));
}

#[test]
fn stow_filters_report_first_invalid_pattern_in_parameter_order() {
    let err = StowFilters::new(
        Some(strings(&["fine"])),
        Some(strings(&["(a"])),
        Some(strings(&["(b"])),
        None,
        Some(strings(&["(c"])),
    )
    .unwrap_err();
    assert_eq!(err, StowError::InvalidPattern("(a".to_string()));
    let err = StowFilters::new(None, None, None, None, Some(strings(&["(c"]))).unwrap_err();
    assert_eq!(err, StowError::InvalidPattern("(c".to_string()));
}
