use grep_engine::collector::{ContextKind, MatchCollector, StreamEvent};
use grep_engine::collector::search_events;
use grep_engine::text::{bytes_to_trimmed_string, truncate_line};
use grep_engine::clamp_u32;

fn matched(line_number: u64, text: &str) -> StreamEvent {
    StreamEvent::Matched { line_number, raw: text.as_bytes().to_vec() }
}

fn context(kind: ContextKind, line_number: u64, text: &str) -> StreamEvent {
    StreamEvent::Context { kind, line_number, raw: text.as_bytes().to_vec() }
}

#[test]
fn offset_and_max_count_paginate_a_stream() {
    // Five lines, matches on lines 1, 3 and 5; skip one match, keep two.
    let events = vec![matched(1, "x one"), matched(3, "x three"), matched(5, "x five")];
    let result = search_events(&events, Some(2), 1, None, true);
    assert_eq!(result.matches.len(), 2);
    assert_eq!(result.matches[0].line_number, 3);
    assert_eq!(result.matches[0].line, "x three");
    assert_eq!(result.matches[1].line_number, 5);
    assert_eq!(result.matches[1].line, "x five");
    assert_eq!(result.match_count, 3);
    assert!(result.limit_reached);
}

#[test]
fn match_count_keeps_counting_until_the_stop_signal() {
    let mut collector = MatchCollector::new(Some(1), 0, None, true);
    assert!(collector.on_matched(1, b"first"));
    // The limit fired; the next match is still counted but stops the scan.
    assert!(!collector.on_matched(2, b"second"));
    let result = collector.finish();
    assert_eq!(result.matches.len(), 1);
    assert_eq!(result.match_count, 2);
    assert_eq!(result.collected, 1);
    assert!(result.limit_reached);
}

#[test]
fn collected_count_never_exceeds_match_count_or_maximum() {
    let events = vec![
        matched(1, "a"),
        matched(2, "b"),
        matched(3, "c"),
        matched(4, "d"),
        matched(5, "e"),
    ];
    for max in 1u64..6 {
        for offset in 0u64..6 {
            let result = search_events(&events, Some(max), offset, None, true);
            assert!(result.collected <= result.match_count);
            assert!(result.collected <= max);
            assert!(result.matches.len() as u64 <= max);
        }
    }
}

#[test]
fn context_window_is_exact() {
    let events = vec![
        context(ContextKind::Before, 1, "before one"),
        context(ContextKind::Before, 2, "before two"),
        matched(3, "the match"),
        context(ContextKind::After, 4, "after one"),
        context(ContextKind::After, 5, "after two"),
    ];
    let result = search_events(&events, None, 0, None, true);
    assert_eq!(result.matches.len(), 1);
    let m = &result.matches[0];
    assert_eq!(m.line_number, 3);
    assert_eq!(m.context_before.len(), 2);
    assert_eq!(m.context_before[0].line_number, 1);
    assert_eq!(m.context_before[0].line, "before one");
    assert_eq!(m.context_before[1].line_number, 2);
    assert_eq!(m.context_before[1].line, "before two");
    assert_eq!(m.context_after.len(), 2);
    assert_eq!(m.context_after[0].line_number, 4);
    assert_eq!(m.context_after[0].line, "after one");
    assert_eq!(m.context_after[1].line_number, 5);
    assert_eq!(m.context_after[1].line, "after two");
}

#[test]
fn skipped_match_discards_its_before_context() {
    let events = vec![
        context(ContextKind::Before, 1, "stale"),
        matched(2, "skipped"),
        context(ContextKind::Before, 3, "fresh"),
        matched(4, "kept"),
    ];
    let result = search_events(&events, None, 1, None, true);
    assert_eq!(result.matches.len(), 1);
    assert_eq!(result.matches[0].line_number, 4);
    assert_eq!(result.matches[0].context_before.len(), 1);
    assert_eq!(result.matches[0].context_before[0].line, "fresh");
}

#[test]
fn after_context_without_a_retained_match_is_dropped() {
    let events = vec![matched(1, "skipped"), context(ContextKind::After, 2, "orphan")];
    let result = search_events(&events, None, 1, None, true);
    assert_eq!(result.matches.len(), 0);
    assert_eq!(result.match_count, 1);
}

#[test]
fn count_mode_retains_no_text() {
    let events = vec![
        context(ContextKind::Before, 1, "b"),
        matched(2, "m"),
        context(ContextKind::After, 3, "a"),
        matched(4, "n"),
    ];
    let result = search_events(&events, None, 0, None, false);
    assert_eq!(result.matches.len(), 0);
    assert_eq!(result.match_count, 2);
    assert_eq!(result.collected, 2);
    assert!(!result.limit_reached);
}

#[test]
fn offset_is_a_strict_prefix_skip() {
    let events = vec![
        matched(1, "a"),
        context(ContextKind::After, 2, "ctx"),
        matched(3, "b"),
        matched(5, "c"),
        matched(7, "d"),
    ];
    let full = search_events(&events, None, 0, None, true);
    let first = search_events(&events, Some(2), 0, None, true);
    let rest = search_events(&events, None, 2, None, true);
    assert_eq!(full.matches.len(), first.matches.len() + rest.matches.len());
    let mut combined: Vec<(u64, String)> = Vec::new();
    for m in first.matches.iter().chain(rest.matches.iter()) {
        combined.push((m.line_number, m.line.clone()));
    }
    let whole: Vec<(u64, String)> =
        full.matches.iter().map(|m| (m.line_number, m.line.clone())).collect();
    assert_eq!(combined, whole);
}

#[test]
fn truncation_respects_the_column_budget() {
    // A line of exactly the budget is untouched.
    let (kept, cut) = truncate_line(String::from("abcde"), Some(5));
    assert_eq!(kept, "abcde");
    assert!(!cut);
    // One character over is cut at budget minus three plus an ellipsis.
    let (kept, cut) = truncate_line(String::from("abcdef"), Some(5));
    assert_eq!(kept, "ab...");
    assert!(cut);
    // No budget, no cut.
    let (kept, cut) = truncate_line(String::from("abcdef"), None);
    assert_eq!(kept, "abcdef");
    assert!(!cut);
}

#[test]
fn truncation_counts_characters_not_bytes() {
    // Five two-byte characters with a budget of four: one kept, no split.
    let line = String::from("ééééé");
    let (kept, cut) = truncate_line(line, Some(4));
    assert!(cut);
    assert_eq!(kept, "é...");
    // A tiny budget keeps nothing but the ellipsis.
    let (kept, cut) = truncate_line(String::from("éé"), Some(1));
    assert!(cut);
    assert_eq!(kept, "...");
}

#[test]
fn lines_are_decoded_lossily_and_trimmed() {
    assert_eq!(bytes_to_trimmed_string(b"plain line \r\n"), "plain line");
    assert_eq!(bytes_to_trimmed_string(b"tab\t\t"), "tab");
    // Unicode whitespace counts as trailing whitespace too.
    assert_eq!(bytes_to_trimmed_string("pad\u{a0}".as_bytes()), "pad");
    // Invalid UTF-8 is replaced, not fatal.
    let with_bad_byte = vec![b'o', b'k', 0xff, b'!'];
    assert_eq!(bytes_to_trimmed_string(&with_bad_byte), "ok\u{fffd}!");
}

#[test]
fn truncation_applies_to_context_lines_too() {
    let events = vec![
        context(ContextKind::Before, 1, "a very long context line"),
        matched(2, "hit"),
    ];
    let result = search_events(&events, None, 0, Some(10), true);
    assert_eq!(result.matches[0].context_before[0].line, "a very ...");
}

#[test]
fn line_numbers_clamp_to_thirty_two_bits() {
    assert_eq!(clamp_u32(7), 7);
    assert_eq!(clamp_u32(u32::MAX as u64), u32::MAX);
    assert_eq!(clamp_u32(u32::MAX as u64 + 1), u32::MAX);
    assert_eq!(clamp_u32(u64::MAX), u32::MAX);
}

#[test]
fn a_maximum_of_zero_still_lets_one_match_through() {
    // The limit only fires after a match is collected.
    let events = vec![matched(1, "a"), matched(2, "b")];
    let result = search_events(&events, Some(0), 0, None, true);
    assert_eq!(result.matches.len(), 1);
    assert!(result.limit_reached);
}
