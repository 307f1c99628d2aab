use grep_engine::glob::{build_glob_pattern, compile_glob};
use grep_engine::options::{parallel_eligible, parse_output_mode, OutputMode};

#[test]
fn bare_glob_is_rewritten_to_match_at_any_depth() {
    assert_eq!(build_glob_pattern("*.md"), "**/*.md");
    let glob = compile_glob(Some("*.md")).unwrap().unwrap();
    assert!(glob.is_match("docs/readme.md"));
    assert!(glob.is_match("readme.md"));
    assert!(!glob.is_match("docs/readme.txt"));
}

#[test]
fn glob_with_a_separator_is_kept_as_written() {
    assert_eq!(build_glob_pattern("src/*.rs"), "src/*.rs");
    let glob = compile_glob(Some("src/*.rs")).unwrap().unwrap();
    assert!(glob.is_match("src/main.rs"));
    assert!(!glob.is_match("other/src/main.rs"));
}

#[test]
fn backslashes_normalize_to_forward_slashes() {
    assert_eq!(build_glob_pattern("sub\\*.txt"), "sub/*.txt");
    let glob = compile_glob(Some("sub\\*.txt")).unwrap().unwrap();
    assert!(glob.is_match("sub/notes.txt"));
}

#[test]
fn blank_or_absent_glob_means_no_filter() {
    assert!(compile_glob(None).unwrap().is_none());
    assert!(compile_glob(Some("  ")).unwrap().is_none());
}

#[test]
fn invalid_glob_syntax_is_reported() {
    assert!(compile_glob(Some("a[")).is_err());
}

#[test]
fn output_mode_selector_has_two_effective_modes() {
    assert_eq!(parse_output_mode(Some("count")), OutputMode::Count);
    assert_eq!(parse_output_mode(Some("filesWithMatches")), OutputMode::Count);
    assert_eq!(parse_output_mode(Some("content")), OutputMode::Content);
    assert_eq!(parse_output_mode(Some("anything else")), OutputMode::Content);
    assert_eq!(parse_output_mode(None), OutputMode::Content);
}

#[test]
fn parallel_strategy_needs_no_offset_and_no_maximum() {
    assert!(parallel_eligible(None, 0));
    assert!(!parallel_eligible(Some(5), 0));
    assert!(!parallel_eligible(None, 1));
    assert!(!parallel_eligible(Some(5), 1));
}
