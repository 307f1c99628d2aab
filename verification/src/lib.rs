//! A regex-based content search engine: streaming per-file match collection
//! with context windows, truncation and pagination, plus the aggregation
//! layer that merges per-file results into one deterministically ordered
//! report.

pub mod aggregate;
pub mod collector;
pub mod filter;
pub mod fuzzy;
pub mod glob;
pub mod laws;
pub mod options;
pub mod pattern;
pub mod report;
pub mod text;

pub use crate::aggregate::{
    grep_sequential, merge_parallel, single_file_report, sort_file_results, FileEntry, FileInput,
    FileSearchResult, SeqState,
};
pub use crate::collector::{ContextKind, ContextLine, MatchCollector, StreamEvent, StreamResult};
pub use crate::filter::{matches_type_filter, resolve_type_filter, TypeFilter};
pub use crate::fuzzy::{FuzzyCollector, FuzzyEntry, FuzzyFindMatch, FuzzyFindResult};
pub use crate::glob::{compile_glob, GlobFilter};
pub use crate::options::{
    parse_output_mode, FuzzyFindOptions, GrepOptions, OutputMode, SearchOptions,
};
pub use crate::pattern::{has_match, CompiledPattern};
pub use crate::report::{GrepMatch, GrepResult, Match, SearchResult};

use vstd::prelude::*;

verus! {

/// At most this many bytes of any single file are scanned.
pub const MAX_FILE_BYTES: u64 = 4 * 1024 * 1024;

/// Clamps a 64-bit count into the 32-bit range public records use.
pub fn clamp_u32(value: u64) -> (r: u32)
    ensures
        r == if value > u32::MAX as u64 {
            u32::MAX as u64
        } else {
            value
        },
{
    if value > u32::MAX as u64 {
        u32::MAX
    } else {
        value as u32
    }
}

} // verus!
