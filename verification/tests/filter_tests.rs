use grep_engine::filter::{
    entry_passes, matches_case_insensitive, matches_type_filter, resolve_type_filter,
};
use grep_engine::glob::compile_glob;

#[test]
fn type_shorthand_selects_the_documented_extensions() {
    let filter = resolve_type_filter(Some("py")).unwrap();
    assert!(matches_type_filter("a.py", &filter));
    assert!(matches_type_filter("a.pyi", &filter));
    assert!(!matches_type_filter("a.txt", &filter));
}

#[test]
fn shorthand_lookup_is_case_insensitive() {
    // "Python" must be lower-cased before the table lookup; otherwise it
    // would fall back to a literal "Python" extension.
    let filter = resolve_type_filter(Some("Python")).unwrap();
    assert!(matches_type_filter("dir/script.py", &filter));
    assert!(!matches_type_filter("dir/script.python", &filter));
}

#[test]
fn shorthand_is_trimmed_and_stripped_of_leading_dots() {
    let filter = resolve_type_filter(Some("  .rs ")).unwrap();
    assert!(matches_type_filter("src/main.rs", &filter));
}

#[test]
fn unknown_shorthand_falls_back_to_a_single_extension() {
    let filter = resolve_type_filter(Some("xyz")).unwrap();
    assert!(matches_type_filter("notes.xyz", &filter));
    assert!(!matches_type_filter("notes.abc", &filter));
}

#[test]
fn blank_or_absent_shorthand_means_no_filter() {
    assert!(resolve_type_filter(None).is_none());
    assert!(resolve_type_filter(Some("   ")).is_none());
}

#[test]
fn bare_name_filters_match_case_insensitively() {
    let filter = resolve_type_filter(Some("docker")).unwrap();
    assert!(matches_type_filter("sub/Dockerfile", &filter));
    assert!(matches_type_filter("dockerfile", &filter));
    assert!(!matches_type_filter("Dockerfile.txt", &filter));
    let make = resolve_type_filter(Some("makefile")).unwrap();
    assert!(matches_type_filter("Makefile", &make));
}

#[test]
fn extension_matching_is_case_insensitive() {
    let filter = resolve_type_filter(Some("md")).unwrap();
    assert!(matches_type_filter("README.MD", &filter));
    assert!(matches_type_filter("guide.Markdown", &filter));
}

#[test]
fn hidden_files_have_no_extension() {
    let filter = resolve_type_filter(Some("gitignore")).unwrap();
    // ".gitignore" has no extension: the leading dot does not count.
    assert!(!matches_type_filter(".gitignore", &filter));
}

#[test]
fn matches_case_insensitive_handles_non_ascii_values() {
    let candidates = vec![String::from("straße")];
    // All-ASCII input folds ASCII case only, and the lengths differ.
    assert!(!matches_case_insensitive("STRASSE", &candidates));
    assert!(matches_case_insensitive("straße", &candidates));
    // Non-ASCII input is fully lower-cased before comparing.
    assert!(matches_case_insensitive("STRAßE", &candidates));
}

#[test]
fn glob_and_type_filter_must_both_accept() {
    let glob = compile_glob(Some("*.py")).unwrap().unwrap();
    let filter = resolve_type_filter(Some("py")).unwrap();
    assert!(entry_passes("pkg/mod.py", Some(&glob), Some(&filter)));
    // Matches the type filter but not the glob.
    assert!(!entry_passes("pkg/mod.pyi", Some(&glob), Some(&filter)));
    // No filters at all accepts everything.
    assert!(entry_passes("whatever.bin", None, None));
}
