//! Request shapes and the small decisions taken straight from them: output
//! mode, effective context size, and parallel eligibility.

use vstd::prelude::*;

use crate::text::str_eq;

verus! {

/// What a search emits: full line content, or per-file counts only.
/// `filesWithMatches` requests are count-only at this layer.
#[derive(Clone, Copy, Debug, PartialEq, Eq, Structural)]
pub enum OutputMode {
    Content,
    Count,
}

/// The output mode a textual selector names.
pub open spec fn output_mode_spec(mode: Option<Seq<char>>) -> OutputMode {
    match mode {
        Some(m) => if m == "count"@ || m == "filesWithMatches"@ {
            OutputMode::Count
        } else {
            OutputMode::Content
        },
        None => OutputMode::Content,
    }
}

/// Maps the textual mode selector onto the two effective modes; anything
/// unrecognized means content.
pub fn parse_output_mode(mode: Option<&str>) -> (r: OutputMode)
    ensures
        r == output_mode_spec(
            match mode {
                Some(m) => Some(m@),
                None => None,
            },
        ),
{
    match mode {
        Some(m) => {
            if str_eq(m, "count") || str_eq(m, "filesWithMatches") {
                OutputMode::Count
            } else {
                OutputMode::Content
            }
        },
        None => OutputMode::Content,
    }
}

/// Options for searching content held in memory.
pub struct SearchOptions {
    /// Regex pattern to search for.
    pub pattern: String,
    /// Case-insensitive search.
    pub ignore_case: Option<bool>,
    /// Enable multiline matching.
    pub multiline: Option<bool>,
    /// Maximum number of matches to return.
    pub max_count: Option<u32>,
    /// Skip first N matches.
    pub offset: Option<u32>,
    /// Lines of context before/after matches.
    pub context: Option<u32>,
    /// Truncate lines longer than this (characters).
    pub max_columns: Option<u32>,
    /// Output mode (content or count).
    pub mode: Option<String>,
}

/// Options for searching files on disk.
pub struct GrepOptions {
    /// Regex pattern to search for.
    pub pattern: String,
    /// Directory or file to search.
    pub path: String,
    /// Glob filter for filenames (e.g., "*.ts").
    pub glob: Option<String>,
    /// Filter by file type (e.g., "js", "py", "rust").
    pub type_filter: Option<String>,
    /// Case-insensitive search.
    pub ignore_case: Option<bool>,
    /// Enable multiline matching.
    pub multiline: Option<bool>,
    /// Include hidden files (default: true).
    pub hidden: Option<bool>,
    /// Maximum number of matches to return.
    pub max_count: Option<u32>,
    /// Skip first N matches.
    pub offset: Option<u32>,
    /// Lines of context before/after matches.
    pub context: Option<u32>,
    /// Truncate lines longer than this (characters).
    pub max_columns: Option<u32>,
    /// Output mode (content, filesWithMatches, or count).
    pub mode: Option<String>,
}

/// Options for fuzzy file path search.
pub struct FuzzyFindOptions {
    /// Substring query to match against file paths (case-insensitive).
    pub query: String,
    /// Directory to search.
    pub path: String,
    /// Include hidden files (default: false).
    pub hidden: Option<bool>,
    /// Respect ignore files (default: true).
    pub gitignore: Option<bool>,
    /// Maximum number of matches to return (default: 100).
    pub max_results: Option<u32>,
}

/// The context size handed to the scan: count-only output never needs
/// context, so it is forced to zero there.
pub fn effective_context(mode: OutputMode, context: Option<u32>) -> (r: u32)
    ensures
        r == (if mode == OutputMode::Content {
            match context {
                Some(c) => c,
                None => 0u32,
            }
        } else {
            0u32
        }),
{
    if mode == OutputMode::Content {
        match context {
            Some(c) => c,
            None => 0,
        }
    } else {
        0
    }
}

/// An optional boolean option with its documented default.
pub fn flag_or(flag: Option<bool>, default: bool) -> (r: bool)
    ensures
        r == (match flag {
            Some(b) => b,
            None => default,
        }),
{
    match flag {
        Some(b) => b,
        None => default,
    }
}

/// The retained-match limit as the collector takes it.
pub fn count_limit(max_count: Option<u32>) -> (r: Option<u64>)
    ensures
        r == (match max_count {
            Some(m) => Some(m as u64),
            None => None::<u64>,
        }),
{
    match max_count {
        Some(m) => Some(m as u64),
        None => None,
    }
}

/// The skip offset as the collector takes it; absent means zero.
pub fn offset_value(offset: Option<u32>) -> (r: u64)
    ensures
        r == (match offset {
            Some(o) => o as u64,
            None => 0u64,
        }),
{
    match offset {
        Some(o) => o as u64,
        None => 0,
    }
}

/// The column budget as the collector takes it.
pub fn columns_limit(max_columns: Option<u32>) -> (r: Option<usize>)
    ensures
        r == (match max_columns {
            Some(c) => Some(c as usize),
            None => None::<usize>,
        }),
{
    match max_columns {
        Some(c) => Some(c as usize),
        None => None,
    }
}

/// Files can be searched concurrently exactly when no global maximum and no
/// global offset is requested: only then does no cross-file pagination state
/// exist.
pub fn parallel_eligible(max_count: Option<u64>, offset: u64) -> (r: bool)
    ensures
        r == (max_count is None && offset == 0),
{
    max_count.is_none() && offset == 0
}

} // verus!
