//! The fuzzy path finder: case-insensitive substring matching of relative
//! paths against a query, capped at a result budget while still counting
//! every match.

use vstd::prelude::*;

use crate::aggregate::{sat32, sat_add_u32};
use crate::text::lower_of;
use crate::text::to_lowercase;

verus! {

/// Whether `needle` occurs contiguously in `hay`.
pub open spec fn contains_seq(hay: Seq<char>, needle: Seq<char>) -> bool {
    exists|k: int|
        0 <= k <= hay.len() - needle.len() && #[trigger] hay.subrange(k, k + needle.len() as int)
            == needle
}

/// Whether `needle` occurs as a substring of `haystack`.
pub fn str_contains(haystack: &str, needle: &str) -> (r: bool)
    ensures
        r == contains_seq(haystack@, needle@),
{
    let h_len = haystack.unicode_len();
    let n_len = needle.unicode_len();
    if n_len > h_len {
        return false;
    }
    if n_len == 0 {
        proof {
            assert(haystack@.subrange(0, 0 + needle@.len() as int) =~= needle@);
        }
        return true;
    }
    let mut k: usize = 0;
    while k <= h_len - n_len
        invariant
            0 < n_len <= h_len,
            k <= h_len - n_len + 1,
            h_len == haystack@.len(),
            n_len == needle@.len(),
            forall|k2: int|
                0 <= k2 < k ==> #[trigger] haystack@.subrange(k2, k2 + n_len as int) != needle@,
        decreases h_len - n_len + 1 - k,
    {
        let mut j: usize = 0;
        let mut hit = true;
        while j < n_len
            invariant
                j <= n_len,
                k + n_len <= h_len,
                h_len == haystack@.len(),
                n_len == needle@.len(),
                hit ==> forall|j2: int|
                    0 <= j2 < j ==> haystack@[k + j2] == #[trigger] needle@[j2],
                !hit ==> haystack@.subrange(k as int, k + n_len as int) != needle@,
            decreases n_len - j,
        {
            if haystack.get_char(k + j) != needle.get_char(j) {
                proof {
                    assert(haystack@.subrange(k as int, k + n_len as int)[j as int] == haystack@[k
                        + j]);
                }
                hit = false;
                j = n_len;
            } else {
                j = j + 1;
            }
        }
        if hit {
            proof {
                assert(haystack@.subrange(k as int, k + n_len as int) =~= needle@);
            }
            return true;
        }
        k = k + 1;
    }
    false
}

/// A single match in fuzzy find results.
pub struct FuzzyFindMatch {
    /// Relative path from the search root (uses `/` separators; directories
    /// carry a trailing separator).
    pub path: String,
    /// Whether this entry is a directory.
    pub is_directory: bool,
}

/// The mathematical value of a [`FuzzyFindMatch`].
#[verifier::ext_equal]
pub struct FuzzyFindMatchModel {
    pub path: Seq<char>,
    pub is_directory: bool,
}

impl View for FuzzyFindMatch {
    type V = FuzzyFindMatchModel;

    open spec fn view(&self) -> FuzzyFindMatchModel {
        FuzzyFindMatchModel { path: self.path@, is_directory: self.is_directory }
    }
}

/// The views of a list of fuzzy matches.
pub open spec fn fuzzy_match_views(v: Seq<FuzzyFindMatch>) -> Seq<FuzzyFindMatchModel> {
    v.map_values(|m: FuzzyFindMatch| m@)
}

/// Result of fuzzy file path search.
pub struct FuzzyFindResult {
    /// Matched entries (up to the result cap).
    pub matches: Vec<FuzzyFindMatch>,
    /// Total number of matches found (may exceed `matches.len()`).
    pub total_matches: u32,
}

/// The mathematical value of a [`FuzzyFindResult`].
#[verifier::ext_equal]
pub struct FuzzyFindResultModel {
    pub matches: Seq<FuzzyFindMatchModel>,
    pub total_matches: u32,
}

impl View for FuzzyFindResult {
    type V = FuzzyFindResultModel;

    open spec fn view(&self) -> FuzzyFindResultModel {
        FuzzyFindResultModel {
            matches: fuzzy_match_views(self.matches@),
            total_matches: self.total_matches,
        }
    }
}

/// One walk entry the fuzzy finder considers.
pub struct FuzzyEntry {
    /// Relative path from the search root, with `/` separators.
    pub relative_path: String,
    pub is_directory: bool,
}

/// The mathematical value of a [`FuzzyEntry`].
#[verifier::ext_equal]
pub struct FuzzyEntryModel {
    pub relative_path: Seq<char>,
    pub is_directory: bool,
}

impl View for FuzzyEntry {
    type V = FuzzyEntryModel;

    open spec fn view(&self) -> FuzzyEntryModel {
        FuzzyEntryModel { relative_path: self.relative_path@, is_directory: self.is_directory }
    }
}

/// The views of a list of walk entries.
pub open spec fn fuzzy_entry_views(v: Seq<FuzzyEntry>) -> Seq<FuzzyEntryModel> {
    v.map_values(|e: FuzzyEntry| e@)
}

/// The path a matched entry is reported as: directories carry a trailing
/// separator.
pub open spec fn fuzzy_display_path(e: FuzzyEntryModel) -> Seq<char> {
    if e.is_directory {
        e.relative_path + "/"@
    } else {
        e.relative_path
    }
}

/// How one walk entry changes the finder: an entry whose lower-cased path
/// does not contain the (already lower-cased, non-empty) query is skipped;
/// a matching entry always counts, and is retained only while the result cap
/// has room.
pub open spec fn fuzzy_step_spec(
    r: FuzzyFindResultModel,
    e: FuzzyEntryModel,
    query_lower: Seq<char>,
    max_results: usize,
) -> FuzzyFindResultModel {
    if query_lower.len() > 0 && !contains_seq(lower_of(e.relative_path), query_lower) {
        r
    } else {
        let total_matches = sat32(r.total_matches + 1);
        if r.matches.len() < max_results {
            FuzzyFindResultModel {
                matches: r.matches.push(
                    FuzzyFindMatchModel {
                        path: fuzzy_display_path(e),
                        is_directory: e.is_directory,
                    },
                ),
                total_matches,
            }
        } else {
            FuzzyFindResultModel { matches: r.matches, total_matches }
        }
    }
}

/// The finder state after considering a whole list of walk entries in order.
pub open spec fn fuzzy_run_spec(
    r: FuzzyFindResultModel,
    entries: Seq<FuzzyEntryModel>,
    query_lower: Seq<char>,
    max_results: usize,
) -> FuzzyFindResultModel
    decreases entries.len(),
{
    if entries.len() == 0 {
        r
    } else {
        fuzzy_run_spec(
            fuzzy_step_spec(r, entries.first(), query_lower, max_results),
            entries.drop_first(),
            query_lower,
            max_results,
        )
    }
}

/// An empty fuzzy find result.
pub open spec fn init_fuzzy_result() -> FuzzyFindResultModel {
    FuzzyFindResultModel { matches: Seq::empty(), total_matches: 0 }
}

/// The streaming fuzzy finder: walk entries are fed in file order.
pub struct FuzzyCollector {
    pub matches: Vec<FuzzyFindMatch>,
    pub total_matches: u32,
    pub query_lower: String,
    pub max_results: usize,
}

impl View for FuzzyCollector {
    type V = FuzzyFindResultModel;

    open spec fn view(&self) -> FuzzyFindResultModel {
        FuzzyFindResultModel {
            matches: fuzzy_match_views(self.matches@),
            total_matches: self.total_matches,
        }
    }
}

impl FuzzyCollector {
    /// A fresh finder for one walk: the query is lower-cased once.
    pub fn new(query: &str, max_results: usize) -> (r: FuzzyCollector)
        ensures
            r@ == init_fuzzy_result(),
            r.query_lower@ == lower_of(query@),
            r.max_results == max_results,
    {
        let r = FuzzyCollector {
            matches: Vec::new(),
            total_matches: 0,
            query_lower: to_lowercase(query),
            max_results,
        };
        proof {
            assert(r@ =~~= init_fuzzy_result());
        }
        r
    }

    /// Consider one walk entry.
    pub fn on_entry(&mut self, relative_path: &str, is_directory: bool)
        ensures
            final(self)@ == fuzzy_step_spec(
                old(self)@,
                FuzzyEntryModel { relative_path: relative_path@, is_directory },
                old(self).query_lower@,
                old(self).max_results,
            ),
            final(self).query_lower == old(self).query_lower,
            final(self).max_results == old(self).max_results,
    {
        let ghost entry = FuzzyEntryModel { relative_path: relative_path@, is_directory };
        if self.query_lower.as_str().unicode_len() > 0 {
            let lowered = to_lowercase(relative_path);
            if !str_contains(lowered.as_str(), self.query_lower.as_str()) {
                return ;
            }
        }
        self.total_matches = sat_add_u32(self.total_matches, 1);
        if self.matches.len() < self.max_results {
            let path = if is_directory {
                let mut p = String::from_str(relative_path);
                p.append("/");
                p
            } else {
                String::from_str(relative_path)
            };
            self.matches.push(FuzzyFindMatch { path, is_directory });
            proof {
                assert(self@.matches =~~= fuzzy_step_spec(
                    old(self)@,
                    entry,
                    old(self).query_lower@,
                    old(self).max_results,
                ).matches);
            }
        }
        proof {
            assert(self@ =~~= fuzzy_step_spec(
                old(self)@,
                entry,
                old(self).query_lower@,
                old(self).max_results,
            ));
        }
    }

    /// Close the walk and hand back what was found.
    pub fn finish(self) -> (r: FuzzyFindResult)
        ensures
            r@ == self@,
    {
        FuzzyFindResult { matches: self.matches, total_matches: self.total_matches }
    }
}

/// Runs the fuzzy finder over a whole list of walk entries.
pub fn fuzzy_collect(entries: &Vec<FuzzyEntry>, query: &str, max_results: usize) -> (r:
    FuzzyFindResult)
    ensures
        r@ == fuzzy_run_spec(
            init_fuzzy_result(),
            fuzzy_entry_views(entries@),
            lower_of(query@),
            max_results,
        ),
{
    let ghost ems = fuzzy_entry_views(entries@);
    let mut collector = FuzzyCollector::new(query, max_results);
    let ghost goal = fuzzy_run_spec(init_fuzzy_result(), ems, lower_of(query@), max_results);
    proof {
        assert(ems.skip(0) =~= ems);
    }
    let n = entries.len();
    let mut i: usize = 0;
    while i < n
        invariant
            i <= n,
            n == entries@.len(),
            ems == fuzzy_entry_views(entries@),
            ems.len() == n,
            collector.query_lower@ == lower_of(query@),
            collector.max_results == max_results,
            goal == fuzzy_run_spec(collector@, ems.skip(i as int), lower_of(query@), max_results),
        decreases n - i,
    {
        proof {
            assert(ems.skip(i as int).first() == ems[i as int]);
            assert(ems.skip(i as int).drop_first() =~= ems.skip(i as int + 1));
            assert(ems[i as int] == entries@[i as int]@);
        }
        let e = &entries[i];
        collector.on_entry(e.relative_path.as_str(), e.is_directory);
        i = i + 1;
    }
    proof {
        assert(ems.skip(i as int) =~= Seq::<FuzzyEntryModel>::empty());
    }
    collector.finish()
}

} // verus!
