//! The public result shapes: match records for content search and file
//! search, and the conversions from collector output into them.

use vstd::prelude::*;

use crate::clamp_u32;
use crate::collector::{
    clamp_spec, ctx_views, CollectedMatch, CollectedMatchModel, ContextLine, ContextLineModel,
    StreamModel, StreamResult,
};

verus! {

/// A single match in content-search output.
pub struct Match {
    /// 1-indexed line number.
    pub line_number: u32,
    /// The matched line content.
    pub line: String,
    /// Context lines before the match.
    pub context_before: Option<Vec<ContextLine>>,
    /// Context lines after the match.
    pub context_after: Option<Vec<ContextLine>>,
    /// Whether the line was truncated.
    pub truncated: Option<bool>,
}

/// The mathematical value of a [`Match`].
#[verifier::ext_equal]
pub struct MatchModel {
    pub line_number: u32,
    pub line: Seq<char>,
    pub context_before: Option<Seq<ContextLineModel>>,
    pub context_after: Option<Seq<ContextLineModel>>,
    pub truncated: Option<bool>,
}

impl View for Match {
    type V = MatchModel;

    open spec fn view(&self) -> MatchModel {
        MatchModel {
            line_number: self.line_number,
            line: self.line@,
            context_before: match self.context_before {
                Some(v) => Some(ctx_views(v@)),
                None => None,
            },
            context_after: match self.context_after {
                Some(v) => Some(ctx_views(v@)),
                None => None,
            },
            truncated: self.truncated,
        }
    }
}

/// The views of a list of content-search matches.
pub open spec fn match_views(v: Seq<Match>) -> Seq<MatchModel> {
    v.map_values(|m: Match| m@)
}

/// Result of searching content.
pub struct SearchResult {
    /// All matches found.
    pub matches: Vec<Match>,
    /// Total number of matches (may exceed `matches.len()` due to
    /// offset/limit).
    pub match_count: u32,
    /// Whether the limit was reached.
    pub limit_reached: bool,
    /// Error message, if any.
    pub error: Option<String>,
}

/// The mathematical value of a [`SearchResult`].
#[verifier::ext_equal]
pub struct SearchResultModel {
    pub matches: Seq<MatchModel>,
    pub match_count: u32,
    pub limit_reached: bool,
    pub error: Option<Seq<char>>,
}

impl View for SearchResult {
    type V = SearchResultModel;

    open spec fn view(&self) -> SearchResultModel {
        SearchResultModel {
            matches: match_views(self.matches@),
            match_count: self.match_count,
            limit_reached: self.limit_reached,
            error: match self.error {
                Some(ref e) => Some(e@),
                None => None,
            },
        }
    }
}

/// A single match in file-search output; in count mode one record per file
/// carries only the per-file match count.
pub struct GrepMatch {
    /// File path for the match (relative for directory searches).
    pub path: String,
    /// 1-indexed line number (0 for count-only entries).
    pub line_number: u32,
    /// The matched line content (empty for count-only entries).
    pub line: String,
    /// Context lines before the match.
    pub context_before: Option<Vec<ContextLine>>,
    /// Context lines after the match.
    pub context_after: Option<Vec<ContextLine>>,
    /// Whether the line was truncated.
    pub truncated: Option<bool>,
    /// Per-file match count (count mode only).
    pub match_count: Option<u32>,
}

/// The mathematical value of a [`GrepMatch`].
#[verifier::ext_equal]
pub struct GrepMatchModel {
    pub path: Seq<char>,
    pub line_number: u32,
    pub line: Seq<char>,
    pub context_before: Option<Seq<ContextLineModel>>,
    pub context_after: Option<Seq<ContextLineModel>>,
    pub truncated: Option<bool>,
    pub match_count: Option<u32>,
}

impl View for GrepMatch {
    type V = GrepMatchModel;

    open spec fn view(&self) -> GrepMatchModel {
        GrepMatchModel {
            path: self.path@,
            line_number: self.line_number,
            line: self.line@,
            context_before: match self.context_before {
                Some(ref v) => Some(ctx_views(v@)),
                None => None,
            },
            context_after: match self.context_after {
                Some(ref v) => Some(ctx_views(v@)),
                None => None,
            },
            truncated: self.truncated,
            match_count: self.match_count,
        }
    }
}

/// The views of a list of file-search records.
pub open spec fn grep_match_views(v: Seq<GrepMatch>) -> Seq<GrepMatchModel> {
    v.map_values(|m: GrepMatch| m@)
}

/// Result of searching files.
pub struct GrepResult {
    /// Matches or per-file counts, depending on output mode.
    pub matches: Vec<GrepMatch>,
    /// Total matches across all files.
    pub total_matches: u32,
    /// Number of files with at least one match.
    pub files_with_matches: u32,
    /// Number of files searched.
    pub files_searched: u32,
    /// Whether the limit/offset stopped the search early.
    pub limit_reached: Option<bool>,
}

/// The mathematical value of a [`GrepResult`].
#[verifier::ext_equal]
pub struct GrepResultModel {
    pub matches: Seq<GrepMatchModel>,
    pub total_matches: u32,
    pub files_with_matches: u32,
    pub files_searched: u32,
    pub limit_reached: Option<bool>,
}

impl View for GrepResult {
    type V = GrepResultModel;

    open spec fn view(&self) -> GrepResultModel {
        GrepResultModel {
            matches: grep_match_views(self.matches@),
            total_matches: self.total_matches,
            files_with_matches: self.files_with_matches,
            files_searched: self.files_searched,
            limit_reached: self.limit_reached,
        }
    }
}

/// An empty context list becomes absent in public output.
pub open spec fn opt_context(s: Seq<ContextLineModel>) -> Option<Seq<ContextLineModel>> {
    if s.len() == 0 {
        None
    } else {
        Some(s)
    }
}

/// The clamp applied when a stream-wide count is reported as `u32`.
pub open spec fn clamp_nat(n: nat) -> u32 {
    if n > u32::MAX {
        u32::MAX
    } else {
        n as u32
    }
}

/// The public record a collected match becomes.
pub open spec fn public_match_spec(m: CollectedMatchModel) -> MatchModel {
    MatchModel {
        line_number: clamp_spec(m.line_number),
        line: m.line,
        context_before: opt_context(m.context_before),
        context_after: opt_context(m.context_after),
        truncated: if m.truncated {
            Some(true)
        } else {
            None
        },
    }
}

/// The file-search record a collected match becomes.
pub open spec fn grep_match_spec(path: Seq<char>, m: CollectedMatchModel) -> GrepMatchModel {
    GrepMatchModel {
        path,
        line_number: clamp_spec(m.line_number),
        line: m.line,
        context_before: opt_context(m.context_before),
        context_after: opt_context(m.context_after),
        truncated: if m.truncated {
            Some(true)
        } else {
            None
        },
        match_count: None,
    }
}

/// The count-mode record a file's stream becomes.
pub open spec fn count_record_spec(path: Seq<char>, match_count: nat) -> GrepMatchModel {
    GrepMatchModel {
        path,
        line_number: 0,
        line: Seq::empty(),
        context_before: None,
        context_after: None,
        truncated: None,
        match_count: Some(clamp_nat(match_count)),
    }
}

/// Converts a collected match into its public content-search record.
pub fn to_public_match(matched: CollectedMatch) -> (r: Match)
    ensures
        r@ == public_match_spec(matched@),
{
    let context_before = if matched.context_before.len() == 0 {
        None
    } else {
        Some(matched.context_before)
    };
    let context_after = if matched.context_after.len() == 0 {
        None
    } else {
        Some(matched.context_after)
    };
    let r = Match {
        line_number: clamp_u32(matched.line_number),
        line: matched.line,
        context_before,
        context_after,
        truncated: if matched.truncated {
            Some(true)
        } else {
            None
        },
    };
    proof {
        assert(r@ =~~= public_match_spec(matched@));
    }
    r
}

/// Converts a collected match into its public file-search record.
pub fn to_grep_match(path: &str, matched: CollectedMatch) -> (r: GrepMatch)
    ensures
        r@ == grep_match_spec(path@, matched@),
{
    let context_before = if matched.context_before.len() == 0 {
        None
    } else {
        Some(matched.context_before)
    };
    let context_after = if matched.context_after.len() == 0 {
        None
    } else {
        Some(matched.context_after)
    };
    let r = GrepMatch {
        path: String::from_str(path),
        line_number: clamp_u32(matched.line_number),
        line: matched.line,
        context_before,
        context_after,
        truncated: if matched.truncated {
            Some(true)
        } else {
            None
        },
        match_count: None,
    };
    proof {
        assert(r@ =~~= grep_match_spec(path@, matched@));
    }
    r
}

/// Builds the count-mode record for one file.
pub fn count_record(path: &str, match_count: u64) -> (r: GrepMatch)
    ensures
        r@ == count_record_spec(path@, match_count as nat),
{
    let r = GrepMatch {
        path: String::from_str(path),
        line_number: 0,
        line: String::new(),
        context_before: None,
        context_after: None,
        truncated: None,
        match_count: Some(clamp_u32(match_count)),
    };
    proof {
        assert(r@ =~~= count_record_spec(path@, match_count as nat));
    }
    r
}

/// The search result reported when pattern compilation or the scan itself
/// fails.
pub fn empty_search_result(error: Option<String>) -> (r: SearchResult)
    ensures
        r@.matches == Seq::<MatchModel>::empty(),
        r@.match_count == 0,
        !r@.limit_reached,
        r@.error == match error {
            Some(e) => Some(e@),
            None => None::<Seq<char>>,
        },
{
    SearchResult { matches: Vec::new(), match_count: 0, limit_reached: false, error }
}

/// The public content-search result a finished stream becomes.
pub open spec fn search_result_spec(s: StreamModel) -> SearchResultModel {
    SearchResultModel {
        matches: s.matches.map_values(|m: CollectedMatchModel| public_match_spec(m)),
        match_count: clamp_nat(s.match_count),
        limit_reached: s.limit_reached,
        error: None,
    }
}

/// Packages a finished stream as the public content-search result.
pub fn stream_to_search_result(stream: StreamResult) -> (r: SearchResult)
    ensures
        r@ == search_result_spec(stream@),
{
    let ghost target = search_result_spec(stream@);
    let match_count = clamp_u32(stream.match_count);
    let limit_reached = stream.limit_reached;
    let mut pending = stream.matches;
    let ghost all = pending@;
    let mut matches: Vec<Match> = Vec::new();
    while pending.len() > 0
        invariant
            matches@.len() + pending@.len() == all.len(),
            pending@ =~= all.skip(matches@.len() as int),
            forall|j: int|
                0 <= j < matches@.len() ==> #[trigger] matches@[j]@ == public_match_spec(all[j]@),
        decreases pending.len(),
    {
        let ghost k = matches@.len() as int;
        proof {
            assert(pending@[0] == all[k]);
        }
        let m = pending.remove(0);
        matches.push(to_public_match(m));
        proof {
            assert(pending@ =~= all.skip(k + 1));
        }
    }
    let r = SearchResult { matches, match_count, limit_reached, error: None };
    proof {
        assert(r@.matches =~~= target.matches);
        assert(r@ =~~= target);
    }
    r
}

} // verus!
