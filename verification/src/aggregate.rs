//! The aggregation layer: carries global offset/limit state across files in
//! the sequential path, merges per-file results in the parallel path, and
//! assembles the final deterministically ordered report.

use vstd::prelude::*;

use crate::clamp_u32;
use crate::collector::{
    cm_views, event_views, CollectedMatch, CollectedMatchModel, StreamModel, StreamResult,
};
use crate::options::OutputMode;
use crate::report::{
    clamp_nat, count_record, count_record_spec, grep_match_spec, grep_match_views, to_grep_match,
    GrepMatch, GrepMatchModel, GrepResult, GrepResultModel,
};

verus! {

/// Saturating arithmetic on the running 64-bit totals.
pub open spec fn sat64(n: int) -> u64 {
    if n > u64::MAX {
        u64::MAX
    } else if n < 0 {
        0
    } else {
        n as u64
    }
}

/// Saturating arithmetic on the running 32-bit file counts.
pub open spec fn sat32(n: int) -> u32 {
    if n > u32::MAX {
        u32::MAX
    } else if n < 0 {
        0
    } else {
        n as u32
    }
}

fn sat_add_u64(a: u64, b: u64) -> (r: u64)
    ensures
        r == sat64(a + b),
{
    if a > u64::MAX - b {
        u64::MAX
    } else {
        a + b
    }
}

pub(crate) fn sat_add_u32(a: u32, b: u32) -> (r: u32)
    ensures
        r == sat32(a + b),
{
    if a > u32::MAX - b {
        u32::MAX
    } else {
        a + b
    }
}

fn sat_sub_u64(a: u64, b: u64) -> (r: u64)
    ensures
        r == sat64(a - b),
{
    if a >= b {
        a - b
    } else {
        0
    }
}

/// One file discovered for searching: where to open it, and the path the
/// report names it by.
pub struct FileEntry {
    /// The path to open.
    pub path: String,
    /// The path relative to the search root, with `/` separators.
    pub relative_path: String,
}

/// The records one file's stream contributes to the report.
pub open spec fn match_records_spec(rel: Seq<char>, ms: Seq<CollectedMatchModel>) -> Seq<
    GrepMatchModel,
> {
    ms.map_values(|m: CollectedMatchModel| grep_match_spec(rel, m))
}

/// Converts one file's collected matches into report records.
fn stream_matches_to_records(relative_path: &str, matches: Vec<CollectedMatch>) -> (r: Vec<
    GrepMatch,
>)
    ensures
        grep_match_views(r@) == match_records_spec(relative_path@, cm_views(matches@)),
{
    let mut pending = matches;
    let ghost all = pending@;
    let mut records: Vec<GrepMatch> = Vec::new();
    while pending.len() > 0
        invariant
            records@.len() + pending@.len() == all.len(),
            pending@ =~= all.skip(records@.len() as int),
            forall|j: int|
                0 <= j < records@.len() ==> #[trigger] records@[j]@ == grep_match_spec(
                    relative_path@,
                    all[j]@,
                ),
        decreases pending.len(),
    {
        let ghost k = records@.len() as int;
        proof {
            assert(pending@[0] == all[k]);
        }
        let m = pending.remove(0);
        records.push(to_grep_match(relative_path, m));
        proof {
            assert(pending@ =~= all.skip(k + 1));
        }
    }
    proof {
        assert(grep_match_views(records@) =~~= match_records_spec(relative_path@, cm_views(all)));
    }
    records
}

/// The state the sequential path threads through the file walk.
pub struct SeqState {
    /// The records accumulated so far, in file order.
    pub matches: Vec<GrepMatch>,
    /// Every match seen so far, including skipped ones.
    pub total_matches: u64,
    /// Matches retained so far, across files.
    pub collected: u64,
    pub files_with_matches: u32,
    pub files_searched: u32,
    pub limit_reached: bool,
}

/// The mathematical value of a [`SeqState`].
#[verifier::ext_equal]
pub struct SeqStateModel {
    pub matches: Seq<GrepMatchModel>,
    pub total_matches: u64,
    pub collected: u64,
    pub files_with_matches: u32,
    pub files_searched: u32,
    pub limit_reached: bool,
}

impl View for SeqState {
    type V = SeqStateModel;

    open spec fn view(&self) -> SeqStateModel {
        SeqStateModel {
            matches: grep_match_views(self.matches@),
            total_matches: self.total_matches,
            collected: self.collected,
            files_with_matches: self.files_with_matches,
            files_searched: self.files_searched,
            limit_reached: self.limit_reached,
        }
    }
}

/// The sequential state before any file is visited.
pub open spec fn init_seq_state() -> SeqStateModel {
    SeqStateModel {
        matches: Seq::empty(),
        total_matches: 0,
        collected: 0,
        files_with_matches: 0,
        files_searched: 0,
        limit_reached: false,
    }
}

impl SeqState {
    /// A fresh sequential walk.
    pub fn new() -> (r: SeqState)
        ensures
            r@ == init_seq_state(),
    {
        let r = SeqState {
            matches: Vec::new(),
            total_matches: 0,
            collected: 0,
            files_with_matches: 0,
            files_searched: 0,
            limit_reached: false,
        };
        proof {
            assert(r@ =~~= init_seq_state());
        }
        r
    }
}

/// What the sequential walk does before the next file: stop, or search it
/// with a local offset and a local remaining budget.
pub enum FileBudget {
    Stop,
    Run { file_offset: u64, remaining: Option<u64> },
}

/// The budget decision for the next file: the walk stops once the limit has
/// fired or the remaining budget is exhausted; otherwise the file is scanned
/// with the offset not yet consumed and the count not yet collected.
pub open spec fn seq_budget_spec(st: SeqStateModel, offset: u64, max_count: Option<u64>) -> (
    SeqStateModel,
    FileBudget,
) {
    if st.limit_reached {
        (st, FileBudget::Stop)
    } else {
        let file_offset = sat64(offset - st.total_matches);
        match max_count {
            Some(m) => {
                let remaining = sat64(m - st.collected);
                if remaining == 0 {
                    (SeqStateModel { limit_reached: true, ..st }, FileBudget::Stop)
                } else {
                    (st, FileBudget::Run { file_offset, remaining: Some(remaining) })
                }
            },
            None => (st, FileBudget::Run { file_offset, remaining: None }),
        }
    }
}

/// Decides whether the walk continues, and with what per-file offset and
/// budget. A remaining budget of exactly zero stops the whole walk and marks
/// the limit reached.
pub fn seq_budget(st: &mut SeqState, offset: u64, max_count: Option<u64>) -> (b: FileBudget)
    ensures
        final(st)@ == seq_budget_spec(old(st)@, offset, max_count).0,
        b == seq_budget_spec(old(st)@, offset, max_count).1,
{
    if st.limit_reached {
        return FileBudget::Stop;
    }
    let file_offset = sat_sub_u64(offset, st.total_matches);
    match max_count {
        Some(m) => {
            let remaining = sat_sub_u64(m, st.collected);
            if remaining == 0 {
                st.limit_reached = true;
                proof {
                    assert(st@ =~~= seq_budget_spec(old(st)@, offset, max_count).0);
                }
                FileBudget::Stop
            } else {
                FileBudget::Run { file_offset, remaining: Some(remaining) }
            }
        },
        None => FileBudget::Run { file_offset, remaining: None },
    }
}

/// A file was opened and will be scanned.
pub open spec fn record_opened_spec(st: SeqStateModel) -> SeqStateModel {
    SeqStateModel { files_searched: sat32(st.files_searched + 1), ..st }
}

/// Counts one opened file as searched.
pub fn seq_record_opened(st: &mut SeqState)
    ensures
        final(st)@ == record_opened_spec(old(st)@),
{
    st.files_searched = sat_add_u32(st.files_searched, 1);
    proof {
        assert(st@ =~~= record_opened_spec(old(st)@));
    }
}

/// The records one file's stream contributes under the output mode: one
/// record per retained match in content mode, one count record per file in
/// count mode.
pub open spec fn grep_records_spec(
    rel: Seq<char>,
    stream: StreamModel,
    mode: OutputMode,
) -> Seq<GrepMatchModel> {
    if mode == OutputMode::Content {
        match_records_spec(rel, stream.matches)
    } else {
        seq![count_record_spec(rel, stream.match_count)]
    }
}

/// How one file's finished stream updates the walk: a file without matches
/// leaves the state unchanged (it is not counted as a file with matches);
/// otherwise the totals grow, its records are appended, and the limit fires
/// when the file-level collector signaled it or the running collected total
/// has reached the global maximum.
pub open spec fn seq_absorb_spec(
    st: SeqStateModel,
    rel: Seq<char>,
    stream: StreamModel,
    mode: OutputMode,
    max_count: Option<u64>,
) -> SeqStateModel {
    if stream.match_count == 0 {
        st
    } else {
        let collected = sat64(st.collected + stream.collected);
        SeqStateModel {
            matches: st.matches + grep_records_spec(rel, stream, mode),
            total_matches: sat64(st.total_matches + stream.match_count),
            collected,
            files_with_matches: sat32(st.files_with_matches + 1),
            files_searched: st.files_searched,
            limit_reached: st.limit_reached || stream.limit_reached || (match max_count {
                Some(m) => collected >= m,
                None => false,
            }),
        }
    }
}

/// Folds one file's finished stream into the walk state.
pub fn seq_absorb(
    st: &mut SeqState,
    relative_path: &str,
    stream: StreamResult,
    mode: OutputMode,
    max_count: Option<u64>,
)
    ensures
        final(st)@ == seq_absorb_spec(old(st)@, relative_path@, stream@, mode, max_count),
{
    let ghost sm = stream@;
    if stream.match_count == 0 {
        return ;
    }
    st.files_with_matches = sat_add_u32(st.files_with_matches, 1);
    st.total_matches = sat_add_u64(st.total_matches, stream.match_count);
    st.collected = sat_add_u64(st.collected, stream.collected);
    let limit_fired = stream.limit_reached || (match max_count {
        Some(m) => st.collected >= m,
        None => false,
    });
    match mode {
        OutputMode::Content => {
            let mut records = stream_matches_to_records(relative_path, stream.matches);
            st.matches.append(&mut records);
        },
        OutputMode::Count => {
            st.matches.push(count_record(relative_path, stream.match_count));
        },
    }
    if limit_fired {
        st.limit_reached = true;
    }
    proof {
        assert(grep_match_views(st.matches@) =~~= old(st)@.matches + grep_records_spec(
            relative_path@,
            sm,
            mode,
        ));
        assert(st@ =~~= seq_absorb_spec(old(st)@, relative_path@, sm, mode, max_count));
    }
}

/// The report a finished sequential walk yields.
pub open spec fn seq_report_spec(st: SeqStateModel) -> GrepResultModel {
    GrepResultModel {
        matches: st.matches,
        total_matches: sat32(st.total_matches as int),
        files_with_matches: st.files_with_matches,
        files_searched: st.files_searched,
        limit_reached: if st.limit_reached {
            Some(true)
        } else {
            None
        },
    }
}

/// Packages a finished sequential walk as the public report.
pub fn seq_state_into_report(st: SeqState) -> (r: GrepResult)
    ensures
        r@ == seq_report_spec(st@),
{
    let r = GrepResult {
        matches: st.matches,
        total_matches: clamp_u32(st.total_matches),
        files_with_matches: st.files_with_matches,
        files_searched: st.files_searched,
        limit_reached: if st.limit_reached {
            Some(true)
        } else {
            None
        },
    };
    proof {
        assert(r@ =~~= seq_report_spec(st@));
    }
    r
}

/// The report for a search that touched nothing: a filtered-out or
/// unreadable single-file root, or an empty file list.
pub fn empty_grep_result() -> (r: GrepResult)
    ensures
        r@.matches.len() == 0,
        r@.total_matches == 0,
        r@.files_with_matches == 0,
        r@.files_searched == 0,
        r@.limit_reached is None,
{
    GrepResult {
        matches: Vec::new(),
        total_matches: 0,
        files_with_matches: 0,
        files_searched: 0,
        limit_reached: None,
    }
}

/// The report for a single-file root whose stream finished: the file counts
/// as searched; with no matches nothing else is reported, otherwise its
/// records are emitted and the limit is reported when the collector signaled
/// it or the collected count reached the maximum.
pub open spec fn single_file_report_spec(
    path: Seq<char>,
    stream: StreamModel,
    mode: OutputMode,
    max_count: Option<u64>,
) -> GrepResultModel {
    if stream.match_count == 0 {
        GrepResultModel {
            matches: Seq::empty(),
            total_matches: 0,
            files_with_matches: 0,
            files_searched: 1,
            limit_reached: None,
        }
    } else {
        let limit = stream.limit_reached || (match max_count {
            Some(m) => stream.collected >= m,
            None => false,
        });
        GrepResultModel {
            matches: grep_records_spec(path, stream, mode),
            total_matches: clamp_nat(stream.match_count),
            files_with_matches: 1,
            files_searched: 1,
            limit_reached: if limit {
                Some(true)
            } else {
                None
            },
        }
    }
}

/// Builds the report when the search root is a single file.
pub fn single_file_report(
    path: &str,
    stream: StreamResult,
    mode: OutputMode,
    max_count: Option<u64>,
) -> (r: GrepResult)
    ensures
        r@ == single_file_report_spec(path@, stream@, mode, max_count),
{
    let ghost sm = stream@;
    if stream.match_count == 0 {
        let r = GrepResult {
            matches: Vec::new(),
            total_matches: 0,
            files_with_matches: 0,
            files_searched: 1,
            limit_reached: None,
        };
        proof {
            assert(r@ =~~= single_file_report_spec(path@, sm, mode, max_count));
        }
        return r;
    }
    let limit = stream.limit_reached || (match max_count {
        Some(m) => stream.collected >= m,
        None => false,
    });
    let total_matches = clamp_u32(stream.match_count);
    let matches: Vec<GrepMatch> = match mode {
        OutputMode::Content => stream_matches_to_records(path, stream.matches),
        OutputMode::Count => {
            let mut records: Vec<GrepMatch> = Vec::new();
            records.push(count_record(path, stream.match_count));
            records
        },
    };
    let r = GrepResult {
        matches,
        total_matches,
        files_with_matches: 1,
        files_searched: 1,
        limit_reached: if limit {
            Some(true)
        } else {
            None
        },
    };
    proof {
        assert(r@.matches =~~= grep_records_spec(path@, sm, mode));
        assert(r@ =~~= single_file_report_spec(path@, sm, mode, max_count));
    }
    r
}

/// One file's input to the sequential engine: its report path, whether it
/// could be opened, and the events its scan delivers.
pub struct FileInput {
    pub relative_path: String,
    pub readable: bool,
    pub events: Vec<crate::collector::StreamEvent>,
}

/// The mathematical value of a [`FileInput`].
#[verifier::ext_equal]
pub struct FileInputModel {
    pub relative_path: Seq<char>,
    pub readable: bool,
    pub events: Seq<crate::collector::EventModel>,
}

impl View for FileInput {
    type V = FileInputModel;

    open spec fn view(&self) -> FileInputModel {
        FileInputModel {
            relative_path: self.relative_path@,
            readable: self.readable,
            events: event_views(self.events@),
        }
    }
}

/// The views of a list of file inputs.
pub open spec fn file_input_views(v: Seq<FileInput>) -> Seq<FileInputModel> {
    v.map_values(|f: FileInput| f@)
}

/// The sequential walk over a file list: each file is scanned with the
/// offset not yet consumed and the budget not yet collected, unreadable
/// files are skipped without counting, and the walk stops as soon as the
/// limit fires.
pub open spec fn seq_run_spec(
    st: SeqStateModel,
    files: Seq<FileInputModel>,
    mode: OutputMode,
    max_count: Option<u64>,
    offset: u64,
    max_columns: Option<usize>,
) -> SeqStateModel
    decreases files.len(),
{
    if files.len() == 0 {
        st
    } else {
        let budget = seq_budget_spec(st, offset, max_count);
        match budget.1 {
            FileBudget::Stop => budget.0,
            FileBudget::Run { file_offset, remaining } => {
                let f = files.first();
                if !f.readable {
                    seq_run_spec(budget.0, files.drop_first(), mode, max_count, offset, max_columns)
                } else {
                    let opened = record_opened_spec(budget.0);
                    let stream = crate::collector::stream_spec(
                        f.events,
                        remaining,
                        file_offset,
                        max_columns,
                        mode == OutputMode::Content,
                    );
                    let absorbed = seq_absorb_spec(
                        opened,
                        f.relative_path,
                        stream,
                        mode,
                        max_count,
                    );
                    seq_run_spec(absorbed, files.drop_first(), mode, max_count, offset, max_columns)
                }
            },
        }
    }
}

/// The whole sequential path over an event log per file: walks the files in
/// their given order, threading the global offset and budget, and packages
/// the final report.
pub fn grep_sequential(
    files: &Vec<FileInput>,
    mode: OutputMode,
    max_count: Option<u64>,
    offset: u64,
    max_columns: Option<usize>,
) -> (r: GrepResult)
    ensures
        r@ == seq_report_spec(
            seq_run_spec(
                init_seq_state(),
                file_input_views(files@),
                mode,
                max_count,
                offset,
                max_columns,
            ),
        ),
{
    let ghost fms = file_input_views(files@);
    let mut st = SeqState::new();
    let ghost goal = seq_run_spec(init_seq_state(), fms, mode, max_count, offset, max_columns);
    let n = files.len();
    proof {
        assert(fms.skip(0) =~= fms);
    }
    let mut i: usize = 0;
    let mut running = true;
    while i < n && running
        invariant
            i <= n,
            n == files@.len(),
            fms == file_input_views(files@),
            fms.len() == n,
            running ==> goal == seq_run_spec(
                st@,
                fms.skip(i as int),
                mode,
                max_count,
                offset,
                max_columns,
            ),
            !running ==> goal == st@,
        decreases n - i,
    {
        proof {
            assert(fms.skip(i as int).first() == fms[i as int]);
            assert(fms.skip(i as int).drop_first() =~= fms.skip(i as int + 1));
            assert(fms[i as int] == files@[i as int]@);
        }
        let budget = seq_budget(&mut st, offset, max_count);
        match budget {
            FileBudget::Stop => {
                running = false;
            },
            FileBudget::Run { file_offset, remaining } => {
                let f = &files[i];
                if f.readable {
                    seq_record_opened(&mut st);
                    let stream = crate::collector::search_events(
                        &f.events,
                        remaining,
                        file_offset,
                        max_columns,
                        mode == OutputMode::Content,
                    );
                    seq_absorb(&mut st, f.relative_path.as_str(), stream, mode, max_count);
                }
            },
        }
        i = i + 1;
    }
    proof {
        if running {
            assert(fms.skip(i as int) =~= Seq::<FileInputModel>::empty());
        }
    }
    seq_state_into_report(st)
}

/// What one file's scan produced in the parallel path.
pub struct FileSearchResult {
    pub relative_path: String,
    pub matches: Vec<CollectedMatch>,
    pub match_count: u64,
}

/// The mathematical value of a [`FileSearchResult`].
#[verifier::ext_equal]
pub struct FileSearchResultModel {
    pub relative_path: Seq<char>,
    pub matches: Seq<CollectedMatchModel>,
    pub match_count: nat,
}

impl View for FileSearchResult {
    type V = FileSearchResultModel;

    open spec fn view(&self) -> FileSearchResultModel {
        FileSearchResultModel {
            relative_path: self.relative_path@,
            matches: cm_views(self.matches@),
            match_count: self.match_count as nat,
        }
    }
}

/// The views of a list of per-file results.
pub open spec fn file_result_views(v: Seq<FileSearchResult>) -> Seq<FileSearchResultModel> {
    v.map_values(|f: FileSearchResult| f@)
}

/// Sorts per-file results by relative path, the deterministic order the
/// parallel path restores before returning (its completion order is not
/// stable).
pub fn sort_file_results(results: Vec<FileSearchResult>) -> (r: Vec<FileSearchResult>)
    ensures
        r@.len() == results@.len(),
        forall|a: int, b: int|
            0 <= a < b < r@.len() ==> crate::text::lex_le(
                r@[a].relative_path@,
                r@[b].relative_path@,
            ),
        r@.to_multiset() == results@.to_multiset(),
{
    broadcast use vstd::seq_lib::group_to_multiset_ensures;

    let mut rest = results;
    let mut out: Vec<FileSearchResult> = Vec::new();
    while rest.len() > 0
        invariant
            out@.len() + rest@.len() == results@.len(),
            out@.to_multiset().add(rest@.to_multiset()) == results@.to_multiset(),
            forall|a: int, b: int|
                0 <= a < b < out@.len() ==> crate::text::lex_le(
                    out@[a].relative_path@,
                    out@[b].relative_path@,
                ),
            forall|a: int, b: int|
                0 <= a < out@.len() && 0 <= b < rest@.len() ==> crate::text::lex_le(
                    out@[a].relative_path@,
                    rest@[b].relative_path@,
                ),
        decreases rest.len(),
    {
        let mut min_idx: usize = 0;
        proof {
            crate::text::lemma_lex_refl(rest@[0].relative_path@);
        }
        let mut j: usize = 1;
        while j < rest.len()
            invariant
                (min_idx as int) < j,
                j <= rest@.len(),
                rest@.len() > 0,
                forall|k: int|
                    0 <= k < j ==> crate::text::lex_le(
                        rest@[min_idx as int].relative_path@,
                        rest@[k].relative_path@,
                    ),
            decreases rest@.len() - j,
        {
            if crate::text::str_le(
                rest[j].relative_path.as_str(),
                rest[min_idx].relative_path.as_str(),
            ) {
                proof {
                    assert forall|k: int|
                        0 <= k < j + 1 implies crate::text::lex_le(
                        rest@[j as int].relative_path@,
                        rest@[k].relative_path@,
                    ) by {
                        if k < j {
                            crate::text::lemma_lex_trans(
                                rest@[j as int].relative_path@,
                                rest@[min_idx as int].relative_path@,
                                rest@[k].relative_path@,
                            );
                        } else {
                            crate::text::lemma_lex_refl(rest@[j as int].relative_path@);
                        }
                    }
                }
                min_idx = j;
            } else {
                proof {
                    crate::text::lemma_lex_total(
                        rest@[j as int].relative_path@,
                        rest@[min_idx as int].relative_path@,
                    );
                }
            }
            j = j + 1;
        }
        let ghost old_out = out@;
        let ghost old_rest = rest@;
        let item = rest.remove(min_idx);
        out.push(item);
        proof {
            broadcast use vstd::seq_lib::group_to_multiset_ensures;

            assert(old_rest.contains(old_rest[min_idx as int]));
            assert(old_rest.to_multiset().count(old_rest[min_idx as int]) > 0);
            assert(out@.to_multiset() =~= old_out.to_multiset().insert(old_rest[min_idx as int]));
            assert(rest@.to_multiset() =~= old_rest.to_multiset().remove(
                old_rest[min_idx as int],
            ));
            assert(out@.to_multiset().add(rest@.to_multiset()) =~= results@.to_multiset());
            assert forall|a: int, b: int|
                0 <= a < out@.len() && 0 <= b < rest@.len() implies crate::text::lex_le(
                out@[a].relative_path@,
                rest@[b].relative_path@,
            ) by {
                if a < old_out.len() {
                    assert(out@[a] == old_out[a]);
                } else {
                    assert(out@[a] == old_rest[min_idx as int]);
                }
                if b < min_idx as int {
                    assert(rest@[b] == old_rest[b]);
                } else {
                    assert(rest@[b] == old_rest[b + 1]);
                }
            }
        }
    }
    out
}

/// The records one per-file result contributes to the merged report.
pub open spec fn parallel_records_spec(r: FileSearchResultModel, mode: OutputMode) -> Seq<
    GrepMatchModel,
> {
    if mode == OutputMode::Content {
        match_records_spec(r.relative_path, r.matches)
    } else {
        seq![count_record_spec(r.relative_path, r.match_count)]
    }
}

/// The fold that merges per-file results, front to back: files without
/// matches are skipped, the others contribute their records and counts.
pub open spec fn merge_fold(results: Seq<FileSearchResultModel>, mode: OutputMode) -> (
    Seq<GrepMatchModel>,
    u64,
    u32,
)
    decreases results.len(),
{
    if results.len() == 0 {
        (Seq::empty(), 0u64, 0u32)
    } else {
        let prev = merge_fold(results.drop_last(), mode);
        let r = results.last();
        if r.match_count == 0 {
            prev
        } else {
            (
                prev.0 + parallel_records_spec(r, mode),
                sat64(prev.1 + r.match_count),
                sat32(prev.2 + 1),
            )
        }
    }
}

/// The merged report of the parallel path: records in the given (path
/// sorted) order, totals accumulated, every result counted as searched, and
/// no limit, since the parallel path runs without one.
pub open spec fn merge_parallel_spec(
    results: Seq<FileSearchResultModel>,
    mode: OutputMode,
) -> GrepResultModel {
    let fold = merge_fold(results, mode);
    GrepResultModel {
        matches: fold.0,
        total_matches: sat32(fold.1 as int),
        files_with_matches: fold.2,
        files_searched: sat32(results.len() as int),
        limit_reached: None,
    }
}

/// Merges per-file results (already path-sorted) into the final report.
pub fn merge_parallel(results: Vec<FileSearchResult>, mode: OutputMode) -> (r: GrepResult)
    ensures
        r@ == merge_parallel_spec(file_result_views(results@), mode),
{
    let ghost rms = file_result_views(results@);
    let files_searched = clamp_u32(results.len() as u64);
    let mut pending = results;
    let mut matches: Vec<GrepMatch> = Vec::new();
    let mut total_matches: u64 = 0;
    let mut files_with_matches: u32 = 0;
    let mut i: usize = 0;
    let n = pending.len();
    while pending.len() > 0
        invariant
            i + pending@.len() == n,
            n == rms.len(),
            pending@ =~= results@.skip(i as int),
            rms == file_result_views(results@),
            (grep_match_views(matches@), total_matches, files_with_matches) == merge_fold(
                rms.take(i as int),
                mode,
            ),
        decreases pending.len(),
    {
        let ghost k = i as int;
        proof {
            assert(pending@[0] == results@[k]);
            assert(rms.take(k + 1).drop_last() =~= rms.take(k));
            assert(rms.take(k + 1).last() == rms[k]);
        }
        let item = pending.remove(0);
        if item.match_count > 0 {
            files_with_matches = sat_add_u32(files_with_matches, 1);
            total_matches = sat_add_u64(total_matches, item.match_count);
            match mode {
                OutputMode::Content => {
                    let mut records = stream_matches_to_records(
                        item.relative_path.as_str(),
                        item.matches,
                    );
                    matches.append(&mut records);
                },
                OutputMode::Count => {
                    matches.push(count_record(item.relative_path.as_str(), item.match_count));
                },
            }
        }
        proof {
            assert(pending@ =~= results@.skip(k + 1));
            assert(grep_match_views(matches@) =~~= merge_fold(rms.take(k + 1), mode).0);
        }
        i = i + 1;
    }
    proof {
        assert(rms.take(n as int) =~= rms);
    }
    let r = GrepResult {
        matches,
        total_matches: clamp_u32(total_matches),
        files_with_matches,
        files_searched,
        limit_reached: None,
    };
    proof {
        assert(r@ =~~= merge_parallel_spec(rms, mode));
    }
    r
}

} // verus!
