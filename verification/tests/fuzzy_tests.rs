use grep_engine::fuzzy::{fuzzy_collect, str_contains, FuzzyCollector, FuzzyEntry};

fn entry(relative_path: &str, is_directory: bool) -> FuzzyEntry {
    FuzzyEntry { relative_path: relative_path.to_string(), is_directory }
}

#[test]
fn substring_search_is_exact() {
    assert!(str_contains("src/main.rs", "main"));
    assert!(str_contains("src/main.rs", "src/main.rs"));
    assert!(str_contains("abc", ""));
    assert!(!str_contains("abc", "abcd"));
    assert!(!str_contains("src/main.rs", "Main"));
}

#[test]
fn queries_match_case_insensitively() {
    let entries = vec![entry("src/Main.rs", false), entry("docs/readme.md", false)];
    let result = fuzzy_collect(&entries, "MAIN", 100);
    assert_eq!(result.total_matches, 1);
    assert_eq!(result.matches.len(), 1);
    assert_eq!(result.matches[0].path, "src/Main.rs");
    assert!(!result.matches[0].is_directory);
}

#[test]
fn directories_carry_a_trailing_separator() {
    let entries = vec![entry("src", true), entry("src/lib.rs", false)];
    let result = fuzzy_collect(&entries, "src", 100);
    assert_eq!(result.total_matches, 2);
    assert_eq!(result.matches[0].path, "src/");
    assert!(result.matches[0].is_directory);
    assert_eq!(result.matches[1].path, "src/lib.rs");
}

#[test]
fn the_cap_bounds_results_but_not_the_count() {
    let entries = vec![
        entry("a/x.txt", false),
        entry("b/x.txt", false),
        entry("c/x.txt", false),
    ];
    let result = fuzzy_collect(&entries, "x.txt", 2);
    assert_eq!(result.matches.len(), 2);
    assert_eq!(result.total_matches, 3);
    assert_eq!(result.matches[0].path, "a/x.txt");
    assert_eq!(result.matches[1].path, "b/x.txt");
    // A cap of zero retains nothing but still counts everything.
    let result = fuzzy_collect(&entries, "x.txt", 0);
    assert_eq!(result.matches.len(), 0);
    assert_eq!(result.total_matches, 3);
}

#[test]
fn an_empty_query_matches_every_entry() {
    let entries = vec![entry("one", false), entry("two", true)];
    let result = fuzzy_collect(&entries, "", 100);
    assert_eq!(result.total_matches, 2);
    assert_eq!(result.matches.len(), 2);
}

#[test]
fn the_streaming_finder_matches_the_whole_list_run() {
    let entries = vec![entry("alpha.rs", false), entry("beta.rs", false)];
    let whole = fuzzy_collect(&entries, "rs", 10);
    let mut collector = FuzzyCollector::new("rs", 10);
    for e in &entries {
        collector.on_entry(e.relative_path.as_str(), e.is_directory);
    }
    let streamed = collector.finish();
    assert_eq!(streamed.total_matches, whole.total_matches);
    assert_eq!(streamed.matches.len(), whole.matches.len());
    for (a, b) in streamed.matches.iter().zip(whole.matches.iter()) {
        assert_eq!(a.path, b.path);
        assert_eq!(a.is_directory, b.is_directory);
    }
}
