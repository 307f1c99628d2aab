use grep_engine::pattern::{has_match, CompiledPattern};

#[test]
fn has_match_finds_a_regex_in_content() {
    assert_eq!(has_match(b"hello world", "wor.d", false, false), Ok(true));
    assert_eq!(has_match(b"hello world", "planet", false, false), Ok(false));
}

#[test]
fn case_insensitivity_is_a_compile_flag() {
    assert_eq!(has_match(b"HELLO", "hello", true, false), Ok(true));
    assert_eq!(has_match(b"HELLO", "hello", false, false), Ok(false));
}

#[test]
fn invalid_patterns_are_reported_not_matched() {
    assert!(has_match(b"anything", "(", false, false).is_err());
    assert!(CompiledPattern::compile("(", false, false).is_err());
}

#[test]
fn multiline_flag_anchors_at_line_boundaries() {
    // With the flag, `^` matches at each line start; without, only at the
    // start of the input.
    assert_eq!(has_match(b"alpha\nbeta", "^beta", false, true), Ok(true));
    assert_eq!(has_match(b"alpha\nbeta", "^beta", false, false), Ok(false));
}

#[test]
fn compiled_pattern_is_reusable() {
    let pattern = CompiledPattern::compile(r"\d+", false, false).unwrap();
    assert!(pattern.is_match(b"version 42"));
    assert!(!pattern.is_match(b"no digits here"));
}
