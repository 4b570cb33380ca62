use dook::downloads_policy::{policy_from_setting, policy_from_settings_file, DownloadsPolicy};
use dook::language_name::LanguageName;
use dook::multi_line_string::MultiLineString;
use dook::text::{sorted_unique, str_lt};
use dook::uncase::uncase;
use std::str::FromStr;

#[test]
fn from_legacy_accepts_old_names_in_any_case() {
    assert_eq!(LanguageName::from_legacy("rust").unwrap().as_str(), "Rust");
    assert_eq!(LanguageName::from_legacy("JS").unwrap().as_str(), "JavaScript");
    assert_eq!(LanguageName::from_legacy("cplusplus").unwrap().as_str(), "C++");
    assert_eq!(LanguageName::from_legacy("Ts").unwrap().as_str(), "TypeScript");
    assert!(LanguageName::from_legacy("cobol").is_err());
}

#[test]
fn from_str_takes_hyperpolyglot_names_and_aliases() {
    assert_eq!(LanguageName::from_str("Python").unwrap().as_str(), "Python");
    assert_eq!(LanguageName::from_str("python").unwrap().as_str(), "Python");
    assert!(LanguageName::from_str("Nonexistent Language").is_err());
    assert!(LanguageName::from_str("Python").unwrap() == LanguageName::python());
}

#[test]
fn parent_language_is_the_hyperpolyglot_group() {
    assert_eq!(LanguageName::tsx().parent().map(|p| p.as_str()), Some("TypeScript"));
    assert!(LanguageName::python().parent().is_none());
}

#[test]
fn sorted_unique_sorts_by_code_point_and_drops_repeats() {
    let v: Vec<String> = ["b", "a", "b", "ab", "B", "é", "a"].iter().map(|s| s.to_string()).collect();
    let r = sorted_unique(v.clone());
    let mut expected = v;
    expected.sort();
    expected.dedup();
    assert_eq!(r, expected);
    assert_eq!(r, vec!["B", "a", "ab", "b", "é"]);
}

#[test]
fn str_lt_is_str_order() {
    assert!(str_lt("a", "b"));
    assert!(str_lt("a", "ab"));
    assert!(!str_lt("ab", "a"));
    assert!(!str_lt("x", "x"));
    assert!(str_lt("Z", "a"));
}

#[test]
fn uncase_matches_any_case() {
    assert_eq!(uncase("fooBar").unwrap(), "[_-]*foo[_-]*bar[_-]*");
    assert_eq!(uncase("foo_bar").unwrap(), "[_-]*foo[_-]*bar[_-]*");
    assert_eq!(uncase("").unwrap(), "[_-]*[_-]*");
}

#[test]
fn uncase_refuses_punctuation() {
    let e = uncase("a.b").unwrap_err();
    assert_eq!(e.describe(), "input \"a.b\" contained non-alphanumeric character at byte 1");
    let e = uncase("é!").unwrap_err();
    assert_eq!(e.describe(), "input \"é!\" contained non-alphanumeric character at byte 2");
}

#[test]
fn downloads_policy_settings() {
    assert_eq!(policy_from_setting("yes"), DownloadsPolicy::Yes);
    assert_eq!(policy_from_setting("  NO\n"), DownloadsPolicy::No);
    assert_eq!(policy_from_setting("Ask"), DownloadsPolicy::Ask);
    assert_eq!(policy_from_setting("maybe"), DownloadsPolicy::Ask);
    assert_eq!(policy_from_settings_file(b"yes\n"), DownloadsPolicy::Yes);
    assert_eq!(policy_from_settings_file(&[0xff, 0xfe]), DownloadsPolicy::Ask);
    assert_eq!(DownloadsPolicy::No.as_str(), "NO");
}

#[test]
fn multi_line_string_joins_lines() {
    let m = MultiLineString::from_lines(&vec!["a\n".to_string(), "b\r\n".to_string(), "c".to_string()]);
    assert_eq!(m.as_str(), "a\nb\nc");
    assert_eq!(MultiLineString::new("x\n".to_string()).into_string(), "x\n");
}

#[test]
fn language_names_resolve_through_aliases() {
    assert_eq!(dook::LanguageName::from_name("python").unwrap().as_str(), "Python");
    assert_eq!(dook::LanguageName::from_name("JS").unwrap().as_str(), "JavaScript");
    assert_eq!(dook::LanguageName::from_name("Python").unwrap().as_str(), "Python");
    assert_eq!(dook::LanguageName::from_name("SQL").unwrap().as_str(), "SQL");
    assert!(dook::LanguageName::from_name("klingon").is_err());
    assert_eq!(dook::LanguageName::from_str("ipynb").unwrap().as_str(), "Jupyter Notebook");
    assert_eq!(dook::language_name::canonical_alias("yml"), Some("YAML"));
    assert_eq!(dook::language_name::canonical_alias("YML"), None);
}
