use grep_engine::aggregate::{
    grep_sequential, merge_parallel, seq_budget, single_file_report, sort_file_results,
    FileBudget, FileInput, FileSearchResult, SeqState,
};
use grep_engine::collector::{search_events, StreamEvent};
use grep_engine::options::OutputMode;
use grep_engine::report::{stream_to_search_result, GrepMatch, GrepResult};

fn matched(line_number: u64, text: &str) -> StreamEvent {
    StreamEvent::Matched { line_number, raw: text.as_bytes().to_vec() }
}

fn file(relative_path: &str, lines: &[u64]) -> FileInput {
    FileInput {
        relative_path: relative_path.to_string(),
        readable: true,
        events: lines.iter().map(|&n| matched(n, "hit")).collect(),
    }
}

fn record_summary(m: &GrepMatch) -> (String, u32, Option<u32>) {
    (m.path.clone(), m.line_number, m.match_count)
}

fn report_summary(r: &GrepResult) -> (Vec<(String, u32, Option<u32>)>, u32, u32, u32, Option<bool>) {
    (
        r.matches.iter().map(record_summary).collect(),
        r.total_matches,
        r.files_with_matches,
        r.files_searched,
        r.limit_reached,
    )
}

#[test]
fn count_mode_emits_one_record_per_file() {
    // Two files in sorted order, two and three matches, no offset or limit.
    let files = vec![file("a.py", &[1, 4]), file("b.py", &[2, 3, 9])];
    let report = grep_sequential(&files, OutputMode::Count, None, 0, None);
    assert_eq!(report.matches.len(), 2);
    assert_eq!(report.matches[0].path, "a.py");
    assert_eq!(report.matches[0].match_count, Some(2));
    assert_eq!(report.matches[0].line_number, 0);
    assert_eq!(report.matches[0].line, "");
    assert_eq!(report.matches[1].path, "b.py");
    assert_eq!(report.matches[1].match_count, Some(3));
    assert_eq!(report.total_matches, 5);
    assert_eq!(report.files_with_matches, 2);
    assert_eq!(report.files_searched, 2);
    assert_eq!(report.limit_reached, None);
}

#[test]
fn offset_and_limit_carry_across_files() {
    // Matches: a.txt has 3, b.txt has 2. Skip 1 globally, keep 2.
    let files = vec![file("a.txt", &[1, 3, 5]), file("b.txt", &[2, 4])];
    let report = grep_sequential(&files, OutputMode::Content, Some(2), 1, None);
    assert_eq!(report.matches.len(), 2);
    assert_eq!(report.matches[0].path, "a.txt");
    assert_eq!(report.matches[0].line_number, 3);
    assert_eq!(report.matches[1].path, "a.txt");
    assert_eq!(report.matches[1].line_number, 5);
    assert_eq!(report.limit_reached, Some(true));
    // The second file is never opened: the limit fired first.
    assert_eq!(report.files_searched, 1);
}

#[test]
fn offset_spanning_a_whole_file_reaches_the_next_one() {
    let files = vec![file("a.txt", &[1, 2]), file("b.txt", &[7, 9])];
    let report = grep_sequential(&files, OutputMode::Content, None, 3, None);
    assert_eq!(report.matches.len(), 1);
    assert_eq!(report.matches[0].path, "b.txt");
    assert_eq!(report.matches[0].line_number, 9);
    assert_eq!(report.limit_reached, None);
}

#[test]
fn unreadable_files_are_skipped_silently() {
    let mut bad = file("bad.txt", &[1]);
    bad.readable = false;
    let files = vec![bad, file("good.txt", &[2])];
    let report = grep_sequential(&files, OutputMode::Content, None, 0, None);
    assert_eq!(report.files_searched, 1);
    assert_eq!(report.files_with_matches, 1);
    assert_eq!(report.matches.len(), 1);
    assert_eq!(report.matches[0].path, "good.txt");
}

#[test]
fn files_without_matches_are_searched_but_not_reported() {
    let files = vec![file("empty.txt", &[]), file("full.txt", &[5])];
    let report = grep_sequential(&files, OutputMode::Count, None, 0, None);
    assert_eq!(report.files_searched, 2);
    assert_eq!(report.files_with_matches, 1);
    assert_eq!(report.matches.len(), 1);
}

#[test]
fn parallel_and_sequential_agree_without_offset_or_limit() {
    let files = vec![
        file("a.rs", &[1, 2]),
        file("b.rs", &[]),
        file("c.rs", &[3, 4, 5]),
    ];
    for mode in [OutputMode::Content, OutputMode::Count] {
        let sequential = grep_sequential(&files, mode, None, 0, None);
        let results: Vec<FileSearchResult> = files
            .iter()
            .map(|f| {
                let stream = search_events(&f.events, None, 0, None, mode == OutputMode::Content);
                FileSearchResult {
                    relative_path: f.relative_path.clone(),
                    matches: stream.matches,
                    match_count: stream.match_count,
                }
            })
            .collect();
        let parallel = merge_parallel(sort_file_results(results), mode);
        assert_eq!(report_summary(&sequential), report_summary(&parallel));
    }
}

#[test]
fn offset_is_a_prefix_skip_across_files_too() {
    let files = vec![file("a.txt", &[1, 3, 5]), file("b.txt", &[2, 4])];
    let full = grep_sequential(&files, OutputMode::Content, None, 0, None);
    let first = grep_sequential(&files, OutputMode::Content, Some(2), 0, None);
    let rest = grep_sequential(&files, OutputMode::Content, None, 2, None);
    let combined: Vec<(String, u32, Option<u32>)> =
        first.matches.iter().chain(rest.matches.iter()).map(record_summary).collect();
    let whole: Vec<(String, u32, Option<u32>)> = full.matches.iter().map(record_summary).collect();
    assert_eq!(combined, whole);
    assert_eq!(whole.len(), 5);
}

#[test]
fn repeating_a_request_yields_identical_output() {
    let files = vec![file("a.txt", &[1, 3]), file("b.txt", &[2])];
    let once = grep_sequential(&files, OutputMode::Content, Some(2), 1, Some(80));
    let twice = grep_sequential(&files, OutputMode::Content, Some(2), 1, Some(80));
    assert_eq!(report_summary(&once), report_summary(&twice));
    let lines_once: Vec<&str> = once.matches.iter().map(|m| m.line.as_str()).collect();
    let lines_twice: Vec<&str> = twice.matches.iter().map(|m| m.line.as_str()).collect();
    assert_eq!(lines_once, lines_twice);
}

#[test]
fn parallel_results_are_sorted_by_relative_path() {
    let results = vec![
        FileSearchResult { relative_path: "z.txt".to_string(), matches: Vec::new(), match_count: 1 },
        FileSearchResult { relative_path: "a/b.txt".to_string(), matches: Vec::new(), match_count: 2 },
        FileSearchResult { relative_path: "a.txt".to_string(), matches: Vec::new(), match_count: 3 },
    ];
    let sorted = sort_file_results(results);
    let order: Vec<&str> = sorted.iter().map(|r| r.relative_path.as_str()).collect();
    assert_eq!(order, vec!["a.txt", "a/b.txt", "z.txt"]);
}

#[test]
fn single_file_root_reports_one_searched_file() {
    let events = vec![matched(2, "x")];
    let stream = search_events(&events, None, 0, None, true);
    let report = single_file_report("/tmp/notes.txt", stream, OutputMode::Content, None);
    assert_eq!(report.files_searched, 1);
    assert_eq!(report.files_with_matches, 1);
    assert_eq!(report.matches.len(), 1);
    assert_eq!(report.matches[0].path, "/tmp/notes.txt");

    let empty_events: Vec<StreamEvent> = Vec::new();
    let stream = search_events(&empty_events, None, 0, None, true);
    let report = single_file_report("/tmp/notes.txt", stream, OutputMode::Content, None);
    assert_eq!(report.files_searched, 1);
    assert_eq!(report.files_with_matches, 0);
    assert_eq!(report.matches.len(), 0);
}

#[test]
fn sequential_state_machine_stops_once_the_budget_is_spent() {
    let mut st = SeqState::new();
    st.collected = 2;
    match seq_budget(&mut st, 0, Some(2)) {
        FileBudget::Stop => {}
        FileBudget::Run { .. } => panic!("budget should be exhausted"),
    }
    assert!(st.limit_reached);
}

#[test]
fn search_result_packaging_clamps_and_wraps() {
    let events = vec![matched(1, "only")];
    let stream = search_events(&events, None, 0, None, true);
    let result = stream_to_search_result(stream);
    assert_eq!(result.match_count, 1);
    assert!(!result.limit_reached);
    assert_eq!(result.error, None);
    assert_eq!(result.matches.len(), 1);
    assert_eq!(result.matches[0].line_number, 1);
    assert_eq!(result.matches[0].line, "only");
    // Empty context lists are reported as absent.
    assert!(result.matches[0].context_before.is_none());
    assert!(result.matches[0].context_after.is_none());
    assert_eq!(result.matches[0].truncated, None);
}
