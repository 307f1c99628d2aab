//! The engine's laws: bounds on what is collected, determinism of the
//! report, exact context windows, the offset/limit split, and the agreement
//! of the parallel and sequential strategies.

use vstd::prelude::*;

use crate::aggregate::{
    init_seq_state, match_records_spec, merge_fold, merge_parallel_spec, parallel_records_spec,
    record_opened_spec, sat32, sat64, seq_absorb_spec, seq_budget_spec, seq_report_spec,
    seq_run_spec, FileBudget, FileInputModel, FileSearchResultModel, SeqStateModel,
};
use crate::collector::{
    clamp_spec, effective_cap, init_collector, lemma_run_preserves_wf, run_events, step_event,
    step_matched, stream_spec, CollectedMatchModel, CollectorModel, ContextKind, ContextLineModel,
    EventModel,
};
use crate::options::OutputMode;
use crate::report::{GrepMatchModel, GrepResultModel};
use crate::text::{sanitize_spec, truncate_spec};

verus! {

/// For every stream: the retained count never exceeds the total count; it
/// never exceeds a configured maximum of one or more; and in collect mode
/// exactly the retained matches are returned.
pub proof fn lemma_collection_bounds(
    events: Seq<EventModel>,
    max_count: Option<u64>,
    offset: u64,
    max_columns: Option<usize>,
    collect: bool,
)
    ensures
        ({
            let s = stream_spec(events, max_count, offset, max_columns, collect);
            &&& s.collected <= s.match_count
            &&& match max_count {
                Some(m) => s.collected <= effective_cap(m),
                None => !s.limit_reached,
            }
            &&& (collect ==> s.matches.len() == s.collected)
            &&& (!collect ==> s.matches.len() == 0)
        }),
{
    lemma_run_preserves_wf(init_collector(max_count, offset, max_columns, collect), events);
    crate::collector::lemma_run_preserves_config(
        init_collector(max_count, offset, max_columns, collect),
        events,
    );
}

/// The engine is a function of its inputs: repeating the same request over
/// the same per-file event streams yields the identical report.
pub proof fn lemma_grep_deterministic(
    files: Seq<FileInputModel>,
    mode: OutputMode,
    max_count: Option<u64>,
    offset: u64,
    max_columns: Option<usize>,
    first: GrepResultModel,
    second: GrepResultModel,
)
    requires
        first == seq_report_spec(
            seq_run_spec(init_seq_state(), files, mode, max_count, offset, max_columns),
        ),
        second == seq_report_spec(
            seq_run_spec(init_seq_state(), files, mode, max_count, offset, max_columns),
        ),
    ensures
        first == second,
{
}

proof fn lemma_seq_limit_run(
    st: SeqStateModel,
    files: Seq<FileInputModel>,
    m: u64,
    offset: u64,
    max_columns: Option<usize>,
)
    requires
        m >= 1,
        st.collected <= m,
        st.matches.len() == st.collected,
    ensures
        ({
            let fin = seq_run_spec(st, files, OutputMode::Content, Some(m), offset, max_columns);
            &&& fin.collected <= m
            &&& fin.matches.len() == fin.collected
        }),
    decreases files.len(),
{
    if files.len() > 0 {
        let budget = seq_budget_spec(st, offset, Some(m));
        match budget.1 {
            FileBudget::Stop => {},
            FileBudget::Run { file_offset, remaining } => {
                let f = files.first();
                if !f.readable {
                    lemma_seq_limit_run(budget.0, files.drop_first(), m, offset, max_columns);
                } else {
                    let opened = record_opened_spec(budget.0);
                    let stream = stream_spec(f.events, remaining, file_offset, max_columns, true);
                    lemma_collection_bounds(f.events, remaining, file_offset, max_columns, true);
                    let absorbed = seq_absorb_spec(
                        opened,
                        f.relative_path,
                        stream,
                        OutputMode::Content,
                        Some(m),
                    );
                    assert(absorbed.collected <= m);
                    assert(absorbed.matches.len() == absorbed.collected);
                    lemma_seq_limit_run(absorbed, files.drop_first(), m, offset, max_columns);
                }
            },
        }
    }
}

/// The number of records a content-mode walk returns never exceeds a
/// configured maximum of one or more, whatever the file count or match
/// density.
pub proof fn lemma_sequential_limit(
    files: Seq<FileInputModel>,
    m: u64,
    offset: u64,
    max_columns: Option<usize>,
)
    requires
        m >= 1,
    ensures
        seq_report_spec(
            seq_run_spec(init_seq_state(), files, OutputMode::Content, Some(m), offset, max_columns),
        ).matches.len() <= m,
{
    lemma_seq_limit_run(init_seq_state(), files, m, offset, max_columns);
}

/// Truncation is exact and never splits a character: a line within the
/// column budget is untouched and unflagged; a line over it is flagged and
/// becomes a whole-character prefix of itself plus an ellipsis.
pub proof fn lemma_truncation_boundaries(line: Seq<char>, max: usize)
    ensures
        line.len() <= max ==> truncate_spec(line, Some(max)) == (line, false),
        line.len() > max ==> truncate_spec(line, Some(max)) == (
            line.subrange(0, crate::text::keep_len(max)) + crate::text::ellipsis(),
            true,
        ),
        line.len() > max ==> truncate_spec(line, Some(max)).0.len() == crate::text::keep_len(max)
            + 3,
{
}

/// Whether an event is a before-context notification.
pub open spec fn is_before_event(e: EventModel) -> bool {
    e matches EventModel::Context { kind: ContextKind::Before, .. }
}

/// Whether an event is an after-context notification.
pub open spec fn is_after_event(e: EventModel) -> bool {
    e matches EventModel::Context { kind: ContextKind::After, .. }
}

/// The context line a context event turns into.
pub open spec fn ctx_model_of(e: EventModel, max_columns: Option<usize>) -> ContextLineModel {
    match e {
        EventModel::Context { line_number, raw, .. } => ContextLineModel {
            line_number: clamp_spec(line_number),
            line: truncate_spec(sanitize_spec(raw), max_columns).0,
        },
        EventModel::Matched { line_number, raw } => ContextLineModel {
            line_number: clamp_spec(line_number),
            line: truncate_spec(sanitize_spec(raw), max_columns).0,
        },
    }
}

/// The context lines a list of context events turns into.
pub open spec fn ctx_models(events: Seq<EventModel>, max_columns: Option<usize>) -> Seq<
    ContextLineModel,
> {
    events.map_values(|e: EventModel| ctx_model_of(e, max_columns))
}

/// The collector with more before-context buffered.
pub open spec fn with_buffered(c: CollectorModel, extra: Seq<ContextLineModel>) -> CollectorModel {
    CollectorModel { context_before: c.context_before + extra, ..c }
}

/// The collector with the most recently added match extended by
/// after-context.
pub open spec fn with_after_extended(
    c: CollectorModel,
    extra: Seq<ContextLineModel>,
) -> CollectorModel {
    CollectorModel {
        matches: c.matches.update(
            c.matches.len() - 1,
            CollectedMatchModel {
                context_after: c.matches.last().context_after + extra,
                ..c.matches.last()
            },
        ),
        ..c
    }
}

/// Running a block of before-context events buffers exactly their lines, and
/// the run then continues on the rest.
proof fn lemma_before_prefix(
    c: CollectorModel,
    befores: Seq<EventModel>,
    rest: Seq<EventModel>,
)
    requires
        c.collect,
        forall|i: int| 0 <= i < befores.len() ==> is_before_event(#[trigger] befores[i]),
    ensures
        run_events(c, befores + rest) == run_events(
            with_buffered(c, ctx_models(befores, c.max_columns)),
            rest,
        ),
    decreases befores.len(),
{
    if befores.len() == 0 {
        assert(befores + rest =~= rest);
        assert(c.context_before + ctx_models(befores, c.max_columns) =~= c.context_before);
        assert(with_buffered(c, ctx_models(befores, c.max_columns)) =~~= c);
    } else {
        let ev = befores[0];
        assert((befores + rest)[0] == ev);
        assert((befores + rest).drop_first() =~= befores.drop_first() + rest);
        let c1 = step_event(c, ev).0;
        assert(step_event(c, ev).1);
        lemma_before_prefix(c1, befores.drop_first(), rest);
        assert(c1.context_before + ctx_models(befores.drop_first(), c.max_columns)
            =~= c.context_before + ctx_models(befores, c.max_columns));
        assert(with_buffered(c1, ctx_models(befores.drop_first(), c1.max_columns)) =~~= with_buffered(
            c,
            ctx_models(befores, c.max_columns),
        ));
    }
}

/// Running a block of after-context events extends exactly the most recently
/// added match.
proof fn lemma_after_suffix(c: CollectorModel, afters: Seq<EventModel>)
    requires
        c.collect,
        c.matches.len() >= 1,
        forall|i: int| 0 <= i < afters.len() ==> is_after_event(#[trigger] afters[i]),
    ensures
        run_events(c, afters) == with_after_extended(c, ctx_models(afters, c.max_columns)),
    decreases afters.len(),
{
    let target = with_after_extended(c, ctx_models(afters, c.max_columns));
    if afters.len() == 0 {
        assert(c.matches.last().context_after + ctx_models(afters, c.max_columns)
            =~= c.matches.last().context_after);
        assert(target.matches =~~= c.matches);
        assert(run_events(c, afters) =~~= target);
    } else {
        let ev = afters[0];
        let c1 = step_event(c, ev).0;
        assert(step_event(c, ev).1);
        lemma_after_suffix(c1, afters.drop_first());
        assert(c1.matches.len() == c.matches.len());
        assert(c1.matches.last().context_after =~= c.matches.last().context_after + seq![
            ctx_model_of(ev, c.max_columns),
        ]);
        assert(with_after_extended(c1, ctx_models(afters.drop_first(), c1.max_columns)).matches
            =~~= target.matches);
        assert(run_events(c, afters) =~~= target);
    }
}

/// Context windows are exact: a lone match preceded by `n` before-context
/// events and followed by `n` after-context events (any `n`) is returned
/// with exactly those context lines, in order, with their own line numbers.
pub proof fn lemma_context_window(
    befores: Seq<EventModel>,
    line_number: u64,
    raw: Seq<u8>,
    afters: Seq<EventModel>,
    max_columns: Option<usize>,
)
    requires
        forall|i: int| 0 <= i < befores.len() ==> is_before_event(#[trigger] befores[i]),
        forall|i: int| 0 <= i < afters.len() ==> is_after_event(#[trigger] afters[i]),
    ensures
        ({
            let events = befores + seq![EventModel::Matched { line_number, raw }] + afters;
            let s = stream_spec(events, None, 0, max_columns, true);
            &&& s.matches.len() == 1
            &&& s.matches[0].line_number == line_number
            &&& s.matches[0].context_before == ctx_models(befores, max_columns)
            &&& s.matches[0].context_after == ctx_models(afters, max_columns)
            &&& s.match_count == 1
            &&& s.collected == 1
            &&& !s.limit_reached
        }),
{
    let init = init_collector(None, 0, max_columns, true);
    let events = befores + seq![EventModel::Matched { line_number, raw }] + afters;
    let tail = seq![EventModel::Matched { line_number, raw }] + afters;
    assert(events =~= befores + tail);
    lemma_before_prefix(init, befores, tail);
    let buffered = with_buffered(init, ctx_models(befores, max_columns));
    assert(tail[0] == EventModel::Matched { line_number, raw });
    assert(tail.drop_first() =~= afters);
    let stepped = step_matched(buffered, line_number, raw).0;
    assert(step_matched(buffered, line_number, raw).1);
    assert(run_events(buffered, tail) == run_events(stepped, afters));
    assert(stepped.matches.len() == 1);
    assert(stepped.matches.last().context_before =~= ctx_models(befores, max_columns));
    lemma_after_suffix(stepped, afters);
    let fin = run_events(stepped, afters);
    assert(fin.matches[0].context_after =~= ctx_models(afters, max_columns));
}

/// The two paginated runs carve the unbounded match list into a prefix and
/// the remaining suffix: no overlap and no gap.
pub proof fn lemma_offset_split_is_prefix_and_suffix(
    events: Seq<EventModel>,
    k: u64,
    max_columns: Option<usize>,
)
    requires
        k >= 1,
    ensures
        ({
            let full = stream_spec(events, None, 0, max_columns, true);
            let first = stream_spec(events, Some(k), 0, max_columns, true);
            let rest = stream_spec(events, None, k, max_columns, true);
            &&& first.matches == full.matches.take(first.matches.len() as int)
            &&& rest.matches == full.matches.skip(first.matches.len() as int)
        }),
{
    lemma_offset_prefix_skip(events, k, max_columns);
    let full = stream_spec(events, None, 0, max_columns, true);
    let first = stream_spec(events, Some(k), 0, max_columns, true);
    let rest = stream_spec(events, None, k, max_columns, true);
    assert(first.matches =~= full.matches.take(first.matches.len() as int));
    assert(rest.matches =~= full.matches.skip(first.matches.len() as int));
}

/// The coupling while the limited run is still live: all three runs have
/// seen the same matches, the limited run holds them all, and the offset run
/// has skipped every one of them.
spec fn offset_phase1(a: CollectorModel, b: CollectorModel, c: CollectorModel, k: u64) -> bool {
    &&& k >= 1
    &&& a.collect && b.collect && c.collect
    &&& a.max_columns == b.max_columns && b.max_columns == c.max_columns
    &&& a.max_count is None && a.offset == 0 && a.skipped == 0 && !a.limit_reached
    &&& b.max_count == Some(k) && b.offset == 0 && b.skipped == 0
    &&& c.max_count is None && c.offset == k && !c.limit_reached
    &&& a.match_count == b.match_count && b.match_count == c.match_count
    &&& a.match_count <= k
    &&& a.collected == a.match_count && b.collected == b.match_count
    &&& c.collected == 0 && c.skipped == c.match_count
    &&& a.matches == b.matches && a.matches.len() == a.collected
    &&& c.matches.len() == 0
    &&& b.limit_reached == (b.match_count == k)
    &&& a.context_before == b.context_before && b.context_before == c.context_before
}

/// The coupling once the limited run has stopped with the records `bm`: the
/// unbounded run's records are those plus what the offset run has collected,
/// and both live runs extend their last match in step.
spec fn offset_phase2(
    a: CollectorModel,
    c: CollectorModel,
    bm: Seq<CollectedMatchModel>,
    k: u64,
) -> bool {
    &&& a.collect && c.collect && a.max_columns == c.max_columns
    &&& a.max_count is None && a.offset == 0 && a.skipped == 0 && !a.limit_reached
    &&& c.max_count is None && c.offset == k && !c.limit_reached
    &&& c.skipped == k
    &&& a.matches == bm + c.matches
    &&& c.matches.len() >= 1
    &&& a.context_before == c.context_before
    &&& a.collected == a.match_count
    &&& c.match_count == a.match_count
    &&& a.collected == c.collected + k
    &&& a.matches.len() == a.collected
    &&& c.matches.len() == c.collected
}

/// What the three runs of one stream add up to: the unbounded run's matches
/// split into the limited run's and the offset run's, with the counts that
/// make the split exact. Either the limited run never hit its cap and equals
/// the unbounded run, or it holds exactly `k` matches and the offset run has
/// the remainder.
pub open spec fn offset_split_outcome(
    a: CollectorModel,
    b: CollectorModel,
    c: CollectorModel,
    k: u64,
) -> bool {
    &&& a.matches == b.matches + c.matches
    &&& a.collected == a.match_count
    &&& c.match_count == a.match_count
    &&& !a.limit_reached && !c.limit_reached
    &&& a.matches.len() == a.collected
    &&& b.matches.len() == b.collected
    &&& c.matches.len() == c.collected
    &&& ({
        ||| (b.collected == a.collected && b.match_count == a.match_count && b.matches == a.matches
            && c.collected == 0 && a.collected <= k && b.limit_reached == (a.collected == k))
        ||| (b.collected == k && c.collected + k == a.collected && b.limit_reached
            && b.match_count >= 1 && a.collected > k)
    })
}

proof fn lemma_offset_tail(
    a: CollectorModel,
    c: CollectorModel,
    bm: Seq<CollectedMatchModel>,
    k: u64,
    events: Seq<EventModel>,
)
    requires
        offset_phase2(a, c, bm, k),
    ensures
        run_events(a, events).matches == bm + run_events(c, events).matches,
        offset_phase2(run_events(a, events), run_events(c, events), bm, k),
    decreases events.len(),
{
    if events.len() == 0 {
    } else {
        let ev = events[0];
        let a1 = step_event(a, ev).0;
        let c1 = step_event(c, ev).0;
        assert(step_event(a, ev).1);
        assert(step_event(c, ev).1);
        match ev {
            EventModel::Matched { line_number, raw } => {
                assert(a1.matches =~~= bm + c1.matches);
            },
            EventModel::Context { kind, line_number, raw } => {
                match kind {
                    ContextKind::Before => {},
                    ContextKind::After => {
                        assert((bm + c.matches).last() == c.matches.last());
                        assert(a1.matches =~~= bm + c1.matches);
                    },
                    ContextKind::Other => {},
                }
            },
        }
        assert(offset_phase2(a1, c1, bm, k));
        lemma_offset_tail(a1, c1, bm, k, events.drop_first());
    }
}

proof fn lemma_offset_split(
    a: CollectorModel,
    b: CollectorModel,
    c: CollectorModel,
    k: u64,
    events: Seq<EventModel>,
)
    requires
        offset_phase1(a, b, c, k),
    ensures
        run_events(a, events).matches == run_events(b, events).matches + run_events(
            c,
            events,
        ).matches,
        offset_split_outcome(run_events(a, events), run_events(b, events), run_events(c, events), k),
    decreases events.len(),
{
    if events.len() == 0 {
        assert(a.matches =~= b.matches + c.matches);
    } else {
        let ev = events[0];
        let a1 = step_event(a, ev).0;
        let b1 = step_event(b, ev).0;
        let c1 = step_event(c, ev).0;
        assert(step_event(a, ev).1);
        assert(step_event(c, ev).1);
        match ev {
            EventModel::Matched { line_number, raw } => {
                if b.limit_reached {
                    // The limited run stops here with its records complete;
                    // the match the unbounded run accepts now is the first
                    // one the offset run keeps.
                    assert(!step_event(b, ev).1);
                    assert(run_events(b, events).matches == b.matches);
                    assert(a1.matches =~~= b.matches + c1.matches);
                    assert(offset_phase2(a1, c1, b.matches, k));
                    lemma_offset_tail(a1, c1, b.matches, k, events.drop_first());
                } else {
                    assert(step_event(b, ev).1);
                    assert(a1.matches =~~= b1.matches);
                    assert(offset_phase1(a1, b1, c1, k));
                    lemma_offset_split(a1, b1, c1, k, events.drop_first());
                }
            },
            EventModel::Context { kind, line_number, raw } => {
                assert(step_event(b, ev).1);
                match kind {
                    ContextKind::Before => {},
                    ContextKind::After => {
                        if a.matches.len() > 0 {
                            assert(a1.matches =~~= b1.matches);
                        }
                    },
                    ContextKind::Other => {},
                }
                assert(offset_phase1(a1, b1, c1, k));
                lemma_offset_split(a1, b1, c1, k, events.drop_first());
            },
        }
    }
}

/// Offset is a strict prefix-skip: for any stream and any `k` of one or
/// more, the matches of a run limited to `k` (no offset) followed by the
/// matches of a run with offset `k` (no limit) are exactly the matches of
/// the unbounded run, in order, with no overlap and no gap.
pub proof fn lemma_offset_prefix_skip(
    events: Seq<EventModel>,
    k: u64,
    max_columns: Option<usize>,
)
    requires
        k >= 1,
    ensures
        ({
            let full = stream_spec(events, None, 0, max_columns, true);
            let first = stream_spec(events, Some(k), 0, max_columns, true);
            let rest = stream_spec(events, None, k, max_columns, true);
            full.matches == first.matches + rest.matches
        }),
        offset_split_outcome(
            run_events(init_collector(None, 0, max_columns, true), events),
            run_events(init_collector(Some(k), 0, max_columns, true), events),
            run_events(init_collector(None, k, max_columns, true), events),
            k,
        ),
{
    let a = init_collector(None, 0, max_columns, true);
    let b = init_collector(Some(k), 0, max_columns, true);
    let c = init_collector(None, k, max_columns, true);
    assert(offset_phase1(a, b, c, k));
    lemma_offset_split(a, b, c, k, events);
}

/// The coupling of the three sequential walks while the limited walk is
/// still live: the same matches seen, all of them held by the limited walk,
/// none yet by the offset walk.
spec fn grep_phase1(sa: SeqStateModel, sb: SeqStateModel, sc: SeqStateModel, k: u64) -> bool {
    &&& k >= 1
    &&& !sa.limit_reached && !sb.limit_reached && !sc.limit_reached
    &&& sa.collected < k
    &&& sb.collected == sa.collected
    &&& sa.total_matches == sa.collected
    &&& sc.total_matches == sa.total_matches
    &&& sc.collected == 0
    &&& sb.matches == sa.matches
    &&& sc.matches == Seq::<GrepMatchModel>::empty()
}

/// The coupling once the limited walk has stopped with the records `bm`.
spec fn grep_phase2(sa: SeqStateModel, sc: SeqStateModel, bm: Seq<GrepMatchModel>, k: u64) -> bool {
    &&& !sa.limit_reached && !sc.limit_reached
    &&& sc.total_matches >= k
    &&& sa.matches == bm + sc.matches
}

proof fn lemma_grep_offset_tail(
    sa: SeqStateModel,
    sc: SeqStateModel,
    bm: Seq<GrepMatchModel>,
    k: u64,
    files: Seq<FileInputModel>,
    max_columns: Option<usize>,
)
    requires
        grep_phase2(sa, sc, bm, k),
        k >= 1,
    ensures
        seq_run_spec(sa, files, OutputMode::Content, None, 0, max_columns).matches == bm
            + seq_run_spec(sc, files, OutputMode::Content, None, k, max_columns).matches,
    decreases files.len(),
{
    if files.len() == 0 {
    } else {
        let f = files.first();
        let budget_a = seq_budget_spec(sa, 0, None);
        let budget_c = seq_budget_spec(sc, k, None);
        assert(budget_a.1 == (FileBudget::Run { file_offset: sat64(0 - sa.total_matches), remaining: None }));
        assert(sat64(0 - sa.total_matches) == 0);
        assert(sat64(k - sc.total_matches) == 0);
        if !f.readable {
            lemma_grep_offset_tail(sa, sc, bm, k, files.drop_first(), max_columns);
        } else {
            let stream = stream_spec(f.events, None, 0, max_columns, true);
            lemma_collection_bounds(f.events, None, 0, max_columns, true);
            let sa1 = seq_absorb_spec(
                record_opened_spec(sa),
                f.relative_path,
                stream,
                OutputMode::Content,
                None,
            );
            let sc1 = seq_absorb_spec(
                record_opened_spec(sc),
                f.relative_path,
                stream,
                OutputMode::Content,
                None,
            );
            assert(sat64(sc.total_matches + stream.match_count) >= k);
            assert(sa1.matches =~= bm + sc1.matches);
            assert(grep_phase2(sa1, sc1, bm, k));
            lemma_grep_offset_tail(sa1, sc1, bm, k, files.drop_first(), max_columns);
        }
    }
}

proof fn lemma_grep_offset_run(
    sa: SeqStateModel,
    sb: SeqStateModel,
    sc: SeqStateModel,
    k: u64,
    files: Seq<FileInputModel>,
    max_columns: Option<usize>,
)
    requires
        grep_phase1(sa, sb, sc, k),
    ensures
        seq_run_spec(sa, files, OutputMode::Content, None, 0, max_columns).matches == seq_run_spec(
            sb,
            files,
            OutputMode::Content,
            Some(k),
            0,
            max_columns,
        ).matches + seq_run_spec(sc, files, OutputMode::Content, None, k, max_columns).matches,
    decreases files.len(),
{
    if files.len() == 0 {
        assert(sa.matches =~= sb.matches + sc.matches);
    } else {
        let f = files.first();
        let s = sa.collected;
        let rem = sat64(k - s);
        assert(rem == k - s && rem >= 1);
        let budget_a = seq_budget_spec(sa, 0, None);
        let budget_b = seq_budget_spec(sb, 0, Some(k));
        let budget_c = seq_budget_spec(sc, k, None);
        assert(sat64(0 - sa.total_matches) == 0);
        assert(sat64(0 - sb.total_matches) == 0);
        assert(budget_b.1 == (FileBudget::Run { file_offset: sat64(0 - sb.total_matches), remaining: Some(rem) }));
        assert(sat64(k - sc.total_matches) == rem);
        if !f.readable {
            lemma_grep_offset_run(sa, sb, sc, k, files.drop_first(), max_columns);
        } else {
            let full = stream_spec(f.events, None, 0, max_columns, true);
            let limited = stream_spec(f.events, Some(rem), 0, max_columns, true);
            let offset_run = stream_spec(f.events, None, rem, max_columns, true);
            lemma_offset_prefix_skip(f.events, rem, max_columns);
            let ra = run_events(init_collector(None, 0, max_columns, true), f.events);
            let rb = run_events(init_collector(Some(rem), 0, max_columns, true), f.events);
            let rc = run_events(init_collector(None, rem, max_columns, true), f.events);
            let rel = f.relative_path;
            let sa1 = seq_absorb_spec(
                record_opened_spec(sa),
                rel,
                full,
                OutputMode::Content,
                None,
            );
            let sb1 = seq_absorb_spec(
                record_opened_spec(sb),
                rel,
                limited,
                OutputMode::Content,
                Some(k),
            );
            let sc1 = seq_absorb_spec(
                record_opened_spec(sc),
                rel,
                offset_run,
                OutputMode::Content,
                None,
            );
            // The per-file records split exactly as the streams do.
            assert(match_records_spec(rel, full.matches) =~~= match_records_spec(
                rel,
                limited.matches,
            ) + match_records_spec(rel, offset_run.matches));
            if full.match_count == 0 {
                assert(limited.match_count == 0 && offset_run.match_count == 0);
                assert(grep_phase1(sa1, sb1, sc1, k));
                lemma_grep_offset_run(sa1, sb1, sc1, k, files.drop_first(), max_columns);
            } else {
                assert(limited.match_count > 0 && offset_run.match_count > 0);
                assert(full.collected == full.match_count);
                if rb.collected == ra.collected && rc.collected == 0 {
                    // The limited stream kept everything this file had.
                    assert(offset_run.matches.len() == 0);
                    assert(limited.matches =~= full.matches);
                    assert(sa1.matches =~= sb1.matches);
                    assert(sc1.matches =~= Seq::<GrepMatchModel>::empty());
                    assert(sb1.collected == sat64(s + limited.collected));
                    assert(s + full.collected <= k);
                    assert(sa1.total_matches == sat64(s + full.match_count));
                    assert(sc1.total_matches == sa1.total_matches);
                    if s + full.collected < k {
                        assert(!sb1.limit_reached);
                        assert(grep_phase1(sa1, sb1, sc1, k));
                        lemma_grep_offset_run(sa1, sb1, sc1, k, files.drop_first(), max_columns);
                    } else {
                        // The budget is exactly spent: the limited walk stops
                        // before the next file.
                        assert(sb1.limit_reached);
                        assert(sc1.total_matches >= k);
                        assert(grep_phase2(sa1, sc1, sb1.matches, k));
                        lemma_grep_offset_tail(sa1, sc1, sb1.matches, k, files.drop_first(), max_columns);
                        assert(seq_run_spec(sb1, files.drop_first(), OutputMode::Content, Some(k), 0, max_columns) == sb1);
                    }
                } else {
                    // The limit fired inside this file: the limited stream
                    // holds the first `rem` matches, the offset stream the
                    // remainder.
                    assert(rb.collected == rem && rc.collected + rem == ra.collected);
                    assert(sb1.collected == sat64(s + rem) == k);
                    assert(sb1.limit_reached);
                    assert(sa1.matches =~= sb1.matches + sc1.matches);
                    assert(full.match_count >= rem);
                    assert(sc1.total_matches == sat64(s + full.match_count));
                    assert(sc1.total_matches >= k);
                    assert(grep_phase2(sa1, sc1, sb1.matches, k));
                    lemma_grep_offset_tail(sa1, sc1, sb1.matches, k, files.drop_first(), max_columns);
                    assert(seq_run_spec(sb1, files.drop_first(), OutputMode::Content, Some(k), 0, max_columns) == sb1);
                }
            }
        }
    }
}

/// Offset is a strict prefix-skip across a whole file walk too: walking with
/// a maximum of `k` and no offset, then walking with an offset of `k` and no
/// maximum, together reconstruct the unbounded walk's match records, in
/// order, with no overlap and no gap.
pub proof fn lemma_grep_offset_prefix_skip(
    files: Seq<FileInputModel>,
    k: u64,
    max_columns: Option<usize>,
)
    requires
        k >= 1,
    ensures
        ({
            let full = seq_report_spec(
                seq_run_spec(init_seq_state(), files, OutputMode::Content, None, 0, max_columns),
            );
            let first = seq_report_spec(
                seq_run_spec(init_seq_state(), files, OutputMode::Content, Some(k), 0, max_columns),
            );
            let rest = seq_report_spec(
                seq_run_spec(init_seq_state(), files, OutputMode::Content, None, k, max_columns),
            );
            full.matches == first.matches + rest.matches
        }),
{
    lemma_grep_offset_run(init_seq_state(), init_seq_state(), init_seq_state(), k, files, max_columns);
}

/// The per-file results the parallel path computes: every readable file's
/// whole stream, run with no offset and no maximum.
pub open spec fn parallel_results_of(
    files: Seq<FileInputModel>,
    mode: OutputMode,
    max_columns: Option<usize>,
) -> Seq<FileSearchResultModel>
    decreases files.len(),
{
    if files.len() == 0 {
        Seq::empty()
    } else {
        let prev = parallel_results_of(files.drop_last(), mode, max_columns);
        let f = files.last();
        if f.readable {
            let stream = stream_spec(f.events, None, 0, max_columns, mode == OutputMode::Content);
            prev.push(
                FileSearchResultModel {
                    relative_path: f.relative_path,
                    matches: stream.matches,
                    match_count: stream.match_count,
                },
            )
        } else {
            prev
        }
    }
}

/// How many of the files can be opened.
pub open spec fn readable_count(files: Seq<FileInputModel>) -> nat
    decreases files.len(),
{
    if files.len() == 0 {
        0
    } else {
        readable_count(files.drop_last()) + if files.last().readable {
            1nat
        } else {
            0nat
        }
    }
}

proof fn lemma_parallel_results_len(
    files: Seq<FileInputModel>,
    mode: OutputMode,
    max_columns: Option<usize>,
)
    ensures
        parallel_results_of(files, mode, max_columns).len() == readable_count(files),
    decreases files.len(),
{
    if files.len() > 0 {
        lemma_parallel_results_len(files.drop_last(), mode, max_columns);
    }
}

/// One file's effect on the sequential walk when no offset and no maximum is
/// requested.
spec fn seq_step_file(
    st: SeqStateModel,
    f: FileInputModel,
    mode: OutputMode,
    max_columns: Option<usize>,
) -> SeqStateModel {
    if !f.readable {
        st
    } else {
        let opened = record_opened_spec(st);
        let stream = stream_spec(f.events, None, 0, max_columns, mode == OutputMode::Content);
        seq_absorb_spec(opened, f.relative_path, stream, mode, None)
    }
}

/// With no maximum, the walk never stops early and a file's effect does not
/// set the limit.
proof fn lemma_seq_step_file_no_limit(
    st: SeqStateModel,
    f: FileInputModel,
    mode: OutputMode,
    max_columns: Option<usize>,
)
    requires
        !st.limit_reached,
    ensures
        !seq_step_file(st, f, mode, max_columns).limit_reached,
{
    if f.readable {
        lemma_collection_bounds(f.events, None, 0, max_columns, mode == OutputMode::Content);
    }
}

/// With no offset and no maximum, the sequential walk decomposes file by
/// file from the back.
proof fn lemma_seq_run_snoc(
    st: SeqStateModel,
    files: Seq<FileInputModel>,
    f: FileInputModel,
    mode: OutputMode,
    max_columns: Option<usize>,
)
    requires
        !st.limit_reached,
    ensures
        seq_run_spec(st, files.push(f), mode, None, 0, max_columns) == seq_step_file(
            seq_run_spec(st, files, mode, None, 0, max_columns),
            f,
            mode,
            max_columns,
        ),
    decreases files.len(),
{
    let all = files.push(f);
    let budget = seq_budget_spec(st, 0, None);
    assert(budget.0 == st);
    assert(budget.1 == (FileBudget::Run { file_offset: 0, remaining: None }));
    if files.len() == 0 {
        assert(all.first() == f);
        assert(all.drop_first() =~= Seq::<FileInputModel>::empty());
        if f.readable {
            let opened = record_opened_spec(st);
            let stream = stream_spec(f.events, None, 0, max_columns, mode == OutputMode::Content);
            let absorbed = seq_absorb_spec(opened, f.relative_path, stream, mode, None);
            assert(seq_run_spec(absorbed, all.drop_first(), mode, None, 0, max_columns)
                == absorbed);
            assert(seq_run_spec(st, all, mode, None, 0, max_columns) == absorbed);
        } else {
            assert(seq_run_spec(st, all.drop_first(), mode, None, 0, max_columns) == st);
            assert(seq_run_spec(st, all, mode, None, 0, max_columns) == st);
        }
        assert(seq_run_spec(st, files, mode, None, 0, max_columns) == st);
    } else {
        assert(all.first() == files.first());
        assert(all.drop_first() =~= files.drop_first().push(f));
        let st1 = seq_step_file(st, files.first(), mode, max_columns);
        lemma_seq_step_file_no_limit(st, files.first(), mode, max_columns);
        lemma_seq_run_snoc(st1, files.drop_first(), f, mode, max_columns);
        assert(seq_run_spec(st, all, mode, None, 0, max_columns) == seq_run_spec(
            st1,
            all.drop_first(),
            mode,
            None,
            0,
            max_columns,
        ));
        assert(seq_run_spec(st, files, mode, None, 0, max_columns) == seq_run_spec(
            st1,
            files.drop_first(),
            mode,
            None,
            0,
            max_columns,
        ));
    }
}

proof fn lemma_par_seq(
    st: SeqStateModel,
    files: Seq<FileInputModel>,
    mode: OutputMode,
    max_columns: Option<usize>,
)
    requires
        !st.limit_reached,
    ensures
        ({
            let fin = seq_run_spec(st, files, mode, None, 0, max_columns);
            let fold = merge_fold(parallel_results_of(files, mode, max_columns), mode);
            &&& fin.matches == st.matches + fold.0
            &&& fin.total_matches == sat64(st.total_matches + fold.1)
            &&& fin.files_with_matches == sat32(st.files_with_matches + fold.2)
            &&& fin.files_searched == sat32(st.files_searched + readable_count(files))
            &&& !fin.limit_reached
        }),
    decreases files.len(),
{
    let fin = seq_run_spec(st, files, mode, None, 0, max_columns);
    let results = parallel_results_of(files, mode, max_columns);
    let fold = merge_fold(results, mode);
    if files.len() == 0 {
        assert(fin == st);
        assert(fin.matches =~= st.matches + fold.0);
    } else {
        let fl = files.drop_last();
        let f = files.last();
        assert(fl.push(f) =~= files);
        lemma_par_seq(st, fl, mode, max_columns);
        let mid = seq_run_spec(st, fl, mode, None, 0, max_columns);
        lemma_seq_run_snoc(st, fl, f, mode, max_columns);
        assert(fin == seq_step_file(mid, f, mode, max_columns));
        let prev_results = parallel_results_of(fl, mode, max_columns);
        let prev_fold = merge_fold(prev_results, mode);
        if f.readable {
            let stream = stream_spec(f.events, None, 0, max_columns, mode == OutputMode::Content);
            lemma_collection_bounds(f.events, None, 0, max_columns, mode == OutputMode::Content);
            let res = FileSearchResultModel {
                relative_path: f.relative_path,
                matches: stream.matches,
                match_count: stream.match_count,
            };
            assert(results == prev_results.push(res));
            assert(results.drop_last() =~= prev_results);
            assert(results.last() == res);
            let opened = record_opened_spec(mid);
            let absorbed = seq_absorb_spec(opened, f.relative_path, stream, mode, None);
            assert(fin == absorbed);
            assert(readable_count(files) == readable_count(fl) + 1);
            assert(sat32(sat32(st.files_searched + readable_count(fl)) + 1) == sat32(
                st.files_searched + readable_count(fl) + 1,
            ));
            assert(fin.files_searched == sat32(st.files_searched + readable_count(files)));
            if stream.match_count == 0 {
                assert(fold == prev_fold);
                assert(fin.matches =~= st.matches + fold.0);
            } else {
                assert(fold.0 == prev_fold.0 + parallel_records_spec(res, mode));
                assert(parallel_records_spec(res, mode) == crate::aggregate::grep_records_spec(
                    f.relative_path,
                    stream,
                    mode,
                ));
                assert(fin.matches == mid.matches + crate::aggregate::grep_records_spec(
                    f.relative_path,
                    stream,
                    mode,
                ));
                assert(fin.matches =~= st.matches + fold.0);
                assert(fold.1 == sat64(prev_fold.1 + stream.match_count));
                assert(fin.total_matches == sat64(mid.total_matches + stream.match_count));
                assert(sat64(sat64(st.total_matches + prev_fold.1) + stream.match_count) == sat64(
                    st.total_matches + sat64(prev_fold.1 + stream.match_count),
                ));
                assert(fin.files_with_matches == sat32(mid.files_with_matches + 1));
                assert(sat32(sat32(st.files_with_matches + prev_fold.2) + 1) == sat32(
                    st.files_with_matches + sat32(prev_fold.2 + 1),
                ));
            }
        } else {
            assert(results == prev_results);
            assert(fin == mid);
            assert(readable_count(files) == readable_count(fl));
        }
    }
}

/// When both strategies are legal (no offset and no maximum requested), the
/// sequential walk and the parallel merge over the same per-file streams
/// produce the same report.
pub proof fn lemma_parallel_sequential_agree(
    files: Seq<FileInputModel>,
    mode: OutputMode,
    max_columns: Option<usize>,
)
    ensures
        seq_report_spec(seq_run_spec(init_seq_state(), files, mode, None, 0, max_columns))
            == merge_parallel_spec(parallel_results_of(files, mode, max_columns), mode),
{
    lemma_par_seq(init_seq_state(), files, mode, max_columns);
    lemma_parallel_results_len(files, mode, max_columns);
    let fin = seq_run_spec(init_seq_state(), files, mode, None, 0, max_columns);
    let fold = merge_fold(parallel_results_of(files, mode, max_columns), mode);
    assert(fin.matches =~= fold.0);
    assert(seq_report_spec(fin) =~~= merge_parallel_spec(
        parallel_results_of(files, mode, max_columns),
        mode,
    ));
}

} // verus!
