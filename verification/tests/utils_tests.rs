use modelcards::assets::config;
use modelcards::assets::templates;
use modelcards::utils::is_directory_empty;
use modelcards::utils::strip_unc;

#[test]
fn strip_unc_test() {
    let plain = "/tmp/test_strip_unc";
    assert_eq!(strip_unc(plain), plain.to_string(), "The path was not stripped.");
    let prefixed = "\\\\?\\C:\\Users\\someone\\project";
    assert_eq!(strip_unc(prefixed), "C:\\Users\\someone\\project".to_string());
}

#[test]
fn strip_unc_removes_repeated_prefixes() {
    let doubled = "\\\\?\\\\\\?\\C:\\data";
    assert_eq!(strip_unc(doubled), "C:\\data".to_string());
}

#[test]
fn init_empty_directory() {
    let entries: Vec<String> = vec![];
    let allowed = is_directory_empty(&entries, false);
    assert!(allowed);
}

#[test]
fn init_non_empty_directory() {
    let entries = vec!["content".to_string()];
    let allowed = is_directory_empty(&entries, false);
    assert!(!allowed);
}

#[test]
fn init_almost_empty_directory() {
    let entries = vec![".git".to_string()];
    let allowed = is_directory_empty(&entries, true);
    assert!(allowed);
}

#[test]
fn hidden_entries_count_when_not_allowed() {
    let entries = vec![".git".to_string()];
    let allowed = is_directory_empty(&entries, false);
    assert!(!allowed);
}

#[test]
fn builtin_assets_are_nonempty_and_distinct() {
    assert!(config::get_default().contains("[input]"));
    assert!(templates::get_md().starts_with("# Model Card"));
    assert!(templates::get_html().contains("<html>"));
    assert_ne!(templates::get_md(), templates::get_html());
}
