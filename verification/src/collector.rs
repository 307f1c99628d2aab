//! The streaming match collector: the underlying scan delivers match and
//! context events in file order, and the collector turns them into a bounded
//! list of match records, honoring a skip offset, a retained-match limit and
//! a column budget. After-context for a match arrives in later events, so the
//! collector keeps extending the most recently added match.

use vstd::prelude::*;

use crate::clamp_u32;
use crate::text::{
    bytes_to_trimmed_string, sanitize_spec, truncate_line, truncate_spec,
};

verus! {

/// Whether a context line precedes or follows its match; `Other` covers
/// boundary notifications that carry no line.
#[derive(Clone, Copy, Debug, PartialEq, Eq, Structural)]
pub enum ContextKind {
    Before,
    After,
    Other,
}

/// A context line (before or after a match).
#[derive(Clone)]
pub struct ContextLine {
    /// 1-indexed line number.
    pub line_number: u32,
    /// Line content (trailing whitespace stripped).
    pub line: String,
}

/// The mathematical value of a [`ContextLine`].
#[verifier::ext_equal]
pub struct ContextLineModel {
    pub line_number: u32,
    pub line: Seq<char>,
}

impl View for ContextLine {
    type V = ContextLineModel;

    open spec fn view(&self) -> ContextLineModel {
        ContextLineModel { line_number: self.line_number, line: self.line@ }
    }
}

/// The views of a list of context lines.
pub open spec fn ctx_views(v: Seq<ContextLine>) -> Seq<ContextLineModel> {
    v.map_values(|c: ContextLine| c@)
}

/// A retained match: the matched line plus the context around it.
pub struct CollectedMatch {
    /// 1-indexed line number (0 when the scan reported none).
    pub line_number: u64,
    /// The matched line content, trimmed and truncated.
    pub line: String,
    /// Context lines before the match, in file order.
    pub context_before: Vec<ContextLine>,
    /// Context lines after the match, in file order.
    pub context_after: Vec<ContextLine>,
    /// Whether the line exceeded the column budget and was cut.
    pub truncated: bool,
}

/// The mathematical value of a [`CollectedMatch`].
#[verifier::ext_equal]
pub struct CollectedMatchModel {
    pub line_number: u64,
    pub line: Seq<char>,
    pub context_before: Seq<ContextLineModel>,
    pub context_after: Seq<ContextLineModel>,
    pub truncated: bool,
}

impl View for CollectedMatch {
    type V = CollectedMatchModel;

    open spec fn view(&self) -> CollectedMatchModel {
        CollectedMatchModel {
            line_number: self.line_number,
            line: self.line@,
            context_before: ctx_views(self.context_before@),
            context_after: ctx_views(self.context_after@),
            truncated: self.truncated,
        }
    }
}

/// The views of a list of collected matches.
pub open spec fn cm_views(v: Seq<CollectedMatch>) -> Seq<CollectedMatchModel> {
    v.map_values(|m: CollectedMatch| m@)
}

/// One notification from the underlying scan: a matched line or a context
/// line, in file order.
pub enum StreamEvent {
    Matched { line_number: u64, raw: Vec<u8> },
    Context { kind: ContextKind, line_number: u64, raw: Vec<u8> },
}

/// The mathematical value of a [`StreamEvent`].
pub enum EventModel {
    Matched { line_number: u64, raw: Seq<u8> },
    Context { kind: ContextKind, line_number: u64, raw: Seq<u8> },
}

impl View for StreamEvent {
    type V = EventModel;

    open spec fn view(&self) -> EventModel {
        match self {
            StreamEvent::Matched { line_number, raw } => EventModel::Matched {
                line_number: *line_number,
                raw: raw@,
            },
            StreamEvent::Context { kind, line_number, raw } => EventModel::Context {
                kind: *kind,
                line_number: *line_number,
                raw: raw@,
            },
        }
    }
}

/// The views of a list of scan events.
pub open spec fn event_views(v: Seq<StreamEvent>) -> Seq<EventModel> {
    v.map_values(|e: StreamEvent| e@)
}

/// The state the collector carries across a stream.
#[verifier::ext_equal]
pub struct CollectorModel {
    pub matches: Seq<CollectedMatchModel>,
    /// Every match seen, including matches skipped by the offset.
    pub match_count: nat,
    /// Matches actually retained (counted even in count-only mode).
    pub collected: nat,
    pub skipped: nat,
    pub limit_reached: bool,
    /// The pending before-context buffer, consumed by the next accepted match.
    pub context_before: Seq<ContextLineModel>,
    pub max_count: Option<u64>,
    pub offset: u64,
    pub max_columns: Option<usize>,
    pub collect: bool,
}

/// The collector state at the start of a stream.
pub open spec fn init_collector(
    max_count: Option<u64>,
    offset: u64,
    max_columns: Option<usize>,
    collect: bool,
) -> CollectorModel {
    CollectorModel {
        matches: Seq::empty(),
        match_count: 0,
        collected: 0,
        skipped: 0,
        limit_reached: false,
        context_before: Seq::empty(),
        max_count,
        offset,
        max_columns,
        collect,
    }
}

/// The clamp applied to line numbers stored in context lines.
pub open spec fn clamp_spec(value: u64) -> u32 {
    if value > u32::MAX as u64 {
        u32::MAX
    } else {
        value as u32
    }
}

/// The retained-match cap the collector enforces: a maximum of zero still
/// lets one match through, because the limit only fires after a match is
/// collected.
pub open spec fn effective_cap(m: u64) -> nat {
    if m == 0 {
        1nat
    } else {
        m as nat
    }
}

/// How one matched line changes the collector, and whether the scan should
/// continue. The match is counted unconditionally; a match inside the skip
/// window is discarded together with the buffered before-context; otherwise
/// the match is retained (in collect mode) and the limit is re-checked.
pub open spec fn step_matched(c: CollectorModel, line_number: u64, raw: Seq<u8>) -> (
    CollectorModel,
    bool,
) {
    let c0 = CollectorModel { match_count: c.match_count + 1, ..c };
    if c.limit_reached {
        (c0, false)
    } else if c.skipped < c.offset {
        (CollectorModel { skipped: c.skipped + 1, context_before: Seq::empty(), ..c0 }, true)
    } else {
        let c1 = if c.collect {
            let text = truncate_spec(sanitize_spec(raw), c.max_columns);
            CollectorModel {
                matches: c0.matches.push(
                    CollectedMatchModel {
                        line_number,
                        line: text.0,
                        context_before: c.context_before,
                        context_after: Seq::empty(),
                        truncated: text.1,
                    },
                ),
                context_before: Seq::empty(),
                ..c0
            }
        } else {
            CollectorModel { context_before: Seq::empty(), ..c0 }
        };
        let limit = match c.max_count {
            Some(m) => c.collected + 1 >= m,
            None => false,
        };
        (CollectorModel { collected: c.collected + 1, limit_reached: limit, ..c1 }, true)
    }
}

/// How one context line changes the collector. Count-only mode discards
/// context; before-context is buffered for the next accepted match;
/// after-context extends the most recently added match, or is discarded when
/// no match has been retained.
pub open spec fn step_context(
    c: CollectorModel,
    kind: ContextKind,
    line_number: u64,
    raw: Seq<u8>,
) -> CollectorModel {
    if !c.collect {
        c
    } else {
        let text = truncate_spec(sanitize_spec(raw), c.max_columns).0;
        let ctx = ContextLineModel { line_number: clamp_spec(line_number), line: text };
        match kind {
            ContextKind::Before => CollectorModel {
                context_before: c.context_before.push(ctx),
                ..c
            },
            ContextKind::After => if c.matches.len() > 0 {
                let last = c.matches.last();
                CollectorModel {
                    matches: c.matches.update(
                        c.matches.len() - 1,
                        CollectedMatchModel { context_after: last.context_after.push(ctx), ..last },
                    ),
                    ..c
                }
            } else {
                c
            },
            ContextKind::Other => c,
        }
    }
}

/// How one event changes the collector, and whether the scan should continue.
pub open spec fn step_event(c: CollectorModel, ev: EventModel) -> (CollectorModel, bool) {
    match ev {
        EventModel::Matched { line_number, raw } => step_matched(c, line_number, raw),
        EventModel::Context { kind, line_number, raw } => (
            step_context(c, kind, line_number, raw),
            true,
        ),
    }
}

/// The collector state after consuming a whole event stream, stopping as
/// soon as a step asks the scan to stop.
pub open spec fn run_events(c: CollectorModel, events: Seq<EventModel>) -> CollectorModel
    decreases events.len(),
{
    if events.len() == 0 {
        c
    } else {
        let next = step_event(c, events[0]);
        if next.1 {
            run_events(next.0, events.drop_first())
        } else {
            next.0
        }
    }
}

/// The collector's internal invariant.
pub open spec fn collector_wf(c: CollectorModel) -> bool {
    &&& c.collected + c.skipped <= c.match_count
    &&& c.skipped <= c.offset
    &&& (c.collect ==> c.matches.len() == c.collected)
    &&& (!c.collect ==> c.matches.len() == 0)
    &&& match c.max_count {
        Some(m) => c.collected <= effective_cap(m) && (c.limit_reached <==> c.collected >= m
            && c.collected >= 1),
        None => !c.limit_reached,
    }
}

/// Consuming one event preserves the collector invariant.
pub proof fn lemma_step_preserves_wf(c: CollectorModel, ev: EventModel)
    requires
        collector_wf(c),
    ensures
        collector_wf(step_event(c, ev).0),
{
}

/// A whole run from a well-formed state ends in a well-formed state.
pub proof fn lemma_run_preserves_wf(c: CollectorModel, events: Seq<EventModel>)
    requires
        collector_wf(c),
    ensures
        collector_wf(run_events(c, events)),
    decreases events.len(),
{
    if events.len() > 0 {
        let next = step_event(c, events[0]);
        lemma_step_preserves_wf(c, events[0]);
        if next.1 {
            lemma_run_preserves_wf(next.0, events.drop_first());
        }
    }
}

/// Steps never change the stream's configuration.
pub proof fn lemma_run_preserves_config(c: CollectorModel, events: Seq<EventModel>)
    ensures
        run_events(c, events).max_count == c.max_count,
        run_events(c, events).offset == c.offset,
        run_events(c, events).max_columns == c.max_columns,
        run_events(c, events).collect == c.collect,
    decreases events.len(),
{
    if events.len() > 0 {
        let next = step_event(c, events[0]);
        if next.1 {
            lemma_run_preserves_config(next.0, events.drop_first());
        }
    }
}

/// The streaming match collector.
pub struct MatchCollector {
    pub matches: Vec<CollectedMatch>,
    pub match_count: u64,
    pub collected_count: u64,
    pub max_count: Option<u64>,
    pub offset: u64,
    pub skipped: u64,
    pub limit_reached: bool,
    pub context_before: Vec<ContextLine>,
    pub max_columns: Option<usize>,
    pub collect_matches: bool,
}

impl View for MatchCollector {
    type V = CollectorModel;

    open spec fn view(&self) -> CollectorModel {
        CollectorModel {
            matches: cm_views(self.matches@),
            match_count: self.match_count as nat,
            collected: self.collected_count as nat,
            skipped: self.skipped as nat,
            limit_reached: self.limit_reached,
            context_before: ctx_views(self.context_before@),
            max_count: self.max_count,
            offset: self.offset,
            max_columns: self.max_columns,
            collect: self.collect_matches,
        }
    }
}

impl MatchCollector {
    /// A fresh collector for one stream.
    pub fn new(
        max_count: Option<u64>,
        offset: u64,
        max_columns: Option<usize>,
        collect_matches: bool,
    ) -> (c: Self)
        ensures
            c@ == init_collector(max_count, offset, max_columns, collect_matches),
            collector_wf(c@),
    {
        let c = MatchCollector {
            matches: Vec::new(),
            match_count: 0,
            collected_count: 0,
            max_count,
            offset,
            skipped: 0,
            limit_reached: false,
            context_before: Vec::new(),
            max_columns,
            collect_matches,
        };
        proof {
            assert(c@ =~~= init_collector(max_count, offset, max_columns, collect_matches));
        }
        c
    }

    /// Consume one matched-line notification; the result says whether the
    /// scan should continue.
    pub fn on_matched(&mut self, line_number: u64, raw: &[u8]) -> (cont: bool)
        requires
            collector_wf(old(self)@),
            old(self)@.match_count < u64::MAX as nat,
        ensures
            collector_wf(final(self)@),
            final(self)@ == step_matched(old(self)@, line_number, raw@).0,
            cont == step_matched(old(self)@, line_number, raw@).1,
    {
        proof {
            lemma_step_preserves_wf(
                old(self)@,
                EventModel::Matched { line_number, raw: raw@ },
            );
        }
        self.match_count = self.match_count + 1;

        if self.limit_reached {
            proof {
                assert(self@ =~~= step_matched(old(self)@, line_number, raw@).0);
            }
            return false;
        }
        if self.skipped < self.offset {
            self.skipped = self.skipped + 1;
            self.context_before = Vec::new();
            proof {
                assert(self@ =~~= step_matched(old(self)@, line_number, raw@).0);
            }
            return true;
        }
        if self.collect_matches {
            let raw_line = bytes_to_trimmed_string(raw);
            let (line, truncated) = truncate_line(raw_line, self.max_columns);
            let mut taken: Vec<ContextLine> = Vec::new();
            core::mem::swap(&mut taken, &mut self.context_before);
            self.matches.push(
                CollectedMatch {
                    line_number,
                    line,
                    context_before: taken,
                    context_after: Vec::new(),
                    truncated,
                },
            );
        } else {
            self.context_before = Vec::new();
        }
        self.collected_count = self.collected_count + 1;
        match self.max_count {
            Some(max) => {
                if self.collected_count >= max {
                    self.limit_reached = true;
                }
            },
            None => {},
        }
        proof {
            assert(self@.matches =~~= step_matched(old(self)@, line_number, raw@).0.matches);
            assert(self@ =~~= step_matched(old(self)@, line_number, raw@).0);
        }
        true
    }

    /// Consume one context-line notification.
    pub fn on_context(&mut self, kind: ContextKind, line_number: u64, raw: &[u8]) -> (cont: bool)
        requires
            collector_wf(old(self)@),
        ensures
            collector_wf(final(self)@),
            final(self)@ == step_context(old(self)@, kind, line_number, raw@),
            cont,
    {
        proof {
            lemma_step_preserves_wf(
                old(self)@,
                EventModel::Context { kind, line_number, raw: raw@ },
            );
        }
        if !self.collect_matches {
            return true;
        }
        let raw_line = bytes_to_trimmed_string(raw);
        let (line, _) = truncate_line(raw_line, self.max_columns);
        let line_number = clamp_u32(line_number);
        match kind {
            ContextKind::Before => {
                self.context_before.push(ContextLine { line_number, line });
                proof {
                    assert(self@.context_before =~~= step_context(
                        old(self)@,
                        kind,
                        line_number as u64,
                        raw@,
                    ).context_before);
                }
            },
            ContextKind::After => {
                if self.matches.len() > 0 {
                    let mut last = self.matches.pop().unwrap();
                    last.context_after.push(ContextLine { line_number, line });
                    self.matches.push(last);
                    proof {
                        let target = step_context(old(self)@, kind, line_number as u64, raw@);
                        assert(self@.matches =~~= target.matches);
                    }
                }
            },
            ContextKind::Other => {},
        }
        proof {
            assert(self@ =~~= step_context(old(self)@, kind, line_number as u64, raw@));
        }
        true
    }

    /// Close the stream and hand back what was collected.
    pub fn finish(self) -> (r: StreamResult)
        ensures
            r@ == stream_of(self@),
    {
        let r = StreamResult {
            matches: self.matches,
            match_count: self.match_count,
            collected: self.collected_count,
            limit_reached: self.limit_reached,
        };
        proof {
            assert(r@ =~~= stream_of(self@));
        }
        r
    }
}

/// What one stream produced.
pub struct StreamResult {
    /// The retained matches, in file order.
    pub matches: Vec<CollectedMatch>,
    /// Every match seen in the stream, including skipped ones.
    pub match_count: u64,
    /// Matches retained after offset and limit.
    pub collected: u64,
    /// Whether the retained-match limit fired.
    pub limit_reached: bool,
}

/// The mathematical value of a [`StreamResult`].
#[verifier::ext_equal]
pub struct StreamModel {
    pub matches: Seq<CollectedMatchModel>,
    pub match_count: nat,
    pub collected: nat,
    pub limit_reached: bool,
}

impl View for StreamResult {
    type V = StreamModel;

    open spec fn view(&self) -> StreamModel {
        StreamModel {
            matches: cm_views(self.matches@),
            match_count: self.match_count as nat,
            collected: self.collected as nat,
            limit_reached: self.limit_reached,
        }
    }
}

/// The stream result a finished collector yields.
pub open spec fn stream_of(c: CollectorModel) -> StreamModel {
    StreamModel {
        matches: c.matches,
        match_count: c.match_count,
        collected: c.collected,
        limit_reached: c.limit_reached,
    }
}

/// The result of one whole stream under the given settings.
pub open spec fn stream_spec(
    events: Seq<EventModel>,
    max_count: Option<u64>,
    offset: u64,
    max_columns: Option<usize>,
    collect: bool,
) -> StreamModel {
    stream_of(run_events(init_collector(max_count, offset, max_columns, collect), events))
}

/// Run the collector over a whole event stream. The retained count never
/// exceeds the total count, and never exceeds a configured maximum of one or
/// more.
pub fn search_events(
    events: &Vec<StreamEvent>,
    max_count: Option<u64>,
    offset: u64,
    max_columns: Option<usize>,
    collect: bool,
) -> (r: StreamResult)
    ensures
        r@ == stream_spec(event_views(events@), max_count, offset, max_columns, collect),
        r@.collected <= r@.match_count,
        match max_count {
            Some(m) => r@.collected <= effective_cap(m),
            None => !r@.limit_reached,
        },
        collect ==> r@.matches.len() == r@.collected,
        !collect ==> r@.matches.len() == 0,
{
    let ghost evs = event_views(events@);
    let ghost goal = run_events(init_collector(max_count, offset, max_columns, collect), evs);
    let mut collector = MatchCollector::new(max_count, offset, max_columns, collect);
    let n = events.len();
    proof {
        assert(evs.skip(0) =~= evs);
    }
    let mut i: usize = 0;
    let mut running = true;
    while i < n && running
        invariant
            i <= n,
            n == events@.len(),
            evs == event_views(events@),
            evs.len() == n,
            collector_wf(collector@),
            collector@.match_count <= i,
            collector@.max_count == max_count,
            collector@.collect == collect,
            running ==> goal == run_events(collector@, evs.skip(i as int)),
            !running ==> goal == collector@,
        decreases n - i,
    {
        proof {
            assert(evs.skip(i as int)[0] == evs[i as int]);
            assert(evs.skip(i as int).drop_first() =~= evs.skip(i as int + 1));
            assert(evs[i as int] == events@[i as int]@);
        }
        let ev = &events[i];
        match ev {
            StreamEvent::Matched { line_number, raw } => {
                let cont = collector.on_matched(*line_number, raw.as_slice());
                if !cont {
                    running = false;
                }
            },
            StreamEvent::Context { kind, line_number, raw } => {
                let _ = collector.on_context(*kind, *line_number, raw.as_slice());
            },
        }
        i = i + 1;
    }
    proof {
        if running {
            assert(evs.skip(i as int) =~= Seq::<EventModel>::empty());
            assert(goal == collector@);
        }
    }
    collector.finish()
}

} // verus!
