//! Glob filtering: normalizing the raw glob text, rewriting a bare file
//! pattern to match at any depth, and the compiled glob matcher. The glob
//! engine itself is an external collaborator.

use vstd::prelude::*;

use crate::text::{str_contains_char, trim_str, trim_ws};

verus! {

#[verifier::external_type_specification]
#[verifier::external_body]
pub struct ExGlobSet(globset::GlobSet);

/// Whether the glob engine accepts the pattern: a function of its text alone.
pub uninterp spec fn glob_compiles(pattern: Seq<char>) -> bool;

/// Whether the compiled glob matches the path: a function of the pattern
/// text and the path text alone.
pub uninterp spec fn glob_matches(pattern: Seq<char>, path: Seq<char>) -> bool;

/// The glob text with path separators normalized.
pub open spec fn normalize_glob_spec(glob: Seq<char>) -> Seq<char> {
    glob.map_values(
        |c: char|
            if c == '\\' {
                '/'
            } else {
                c
            },
    )
}

/// The pattern handed to the glob engine: separators normalized, and a
/// pattern without any separator rewritten to match at any depth.
pub open spec fn glob_pattern_spec(glob: Seq<char>) -> Seq<char> {
    let normalized = normalize_glob_spec(glob);
    if normalized.contains('/') {
        normalized
    } else {
        "**/"@ + normalized
    }
}

/// Normalizes the raw glob text: backslashes become forward slashes, and a
/// pattern without a path separator is prefixed so it matches at any depth.
pub fn build_glob_pattern(glob: &str) -> (r: String)
    ensures
        r@ == glob_pattern_spec(glob@),
{
    let len = glob.unicode_len();
    let mut normalized = String::new();
    let mut i: usize = 0;
    while i < len
        invariant
            i <= len,
            len == glob@.len(),
            normalized@ =~= normalize_glob_spec(glob@.take(i as int)),
        decreases len - i,
    {
        let c = glob.get_char(i);
        if c == '\\' {
            normalized.append("/");
            proof {
                reveal_strlit("/");
            }
        } else {
            normalized.append(glob.substring_char(i, i + 1));
        }
        proof {
            assert(normalized@ =~= normalize_glob_spec(glob@.take(i as int + 1)));
        }
        i = i + 1;
    }
    proof {
        assert(glob@.take(len as int) =~= glob@);
    }
    if str_contains_char(normalized.as_str(), '/') {
        proof {
            assert(normalize_glob_spec(glob@).contains('/')) by {
                let j = choose|j: int|
                    0 <= j < normalized@.len() && normalized@[j] == '/';
                assert(normalize_glob_spec(glob@)[j] == '/');
            }
        }
        normalized
    } else {
        proof {
            if normalize_glob_spec(glob@).contains('/') {
                let j = choose|j: int|
                    0 <= j < normalize_glob_spec(glob@).len() && normalize_glob_spec(glob@)[j]
                        == '/';
                assert(normalized@[j] == '/');
            }
        }
        let mut out = String::from_str("**/");
        out.append(normalized.as_str());
        out
    }
}

/// A compiled glob filter: the opaque matcher handle together with the
/// pattern it was built from. Immutable once created.
pub struct GlobFilter {
    set: globset::GlobSet,
    pattern: String,
}

impl GlobFilter {
    /// The normalized pattern this filter was built from.
    pub closed spec fn spec_pattern(&self) -> Seq<char> {
        self.pattern@
    }

    /// Relies on `globset::Glob::new` and `globset::GlobSetBuilder::build`:
    /// whether a glob compiles is a function of its text alone.
    #[verifier::external_body]
    fn build(pattern: &str) -> (r: Result<GlobFilter, String>)
        ensures
            r is Ok <==> glob_compiles(pattern@),
            r matches Ok(f) ==> f.spec_pattern() == pattern@,
    {
        let glob = match globset::Glob::new(pattern) {
            Ok(glob) => glob,
            Err(err) => return Err(format!("Invalid glob pattern: {err}")),
        };
        let mut builder = globset::GlobSetBuilder::new();
        builder.add(glob);
        match builder.build() {
            Ok(set) => Ok(GlobFilter { set, pattern: pattern.to_string() }),
            Err(err) => Err(format!("Failed to build glob matcher: {err}")),
        }
    }

    /// Relies on `globset::GlobSet::is_match`: for a `/`-separated path
    /// (globset normalizes platform separators, so a path with a backslash
    /// is read differently per platform), the result is a function of the
    /// pattern text and the path text alone.
    #[verifier::external_body]
    pub fn is_match(&self, path: &str) -> (r: bool)
        ensures
            !path@.contains('\\') ==> r == glob_matches(self.spec_pattern(), path@),
    {
        self.set.is_match(path)
    }
}

/// What `compile_glob` yields for a raw glob argument.
pub open spec fn compile_glob_outcome(glob: Option<Seq<char>>) -> Option<Seq<char>> {
    match glob {
        Some(g) => if trim_ws(g).len() == 0 {
            None
        } else {
            Some(glob_pattern_spec(trim_ws(g)))
        },
        None => None,
    }
}

/// Compiles an optional glob argument: an absent or blank glob means no
/// filter; otherwise the normalized pattern is compiled, and an invalid
/// pattern is reported as an error.
pub fn compile_glob(glob: Option<&str>) -> (r: Result<Option<GlobFilter>, String>)
    ensures
        ({
            let outcome = compile_glob_outcome(
                match glob {
                    Some(g) => Some(g@),
                    None => None,
                },
            );
            match outcome {
                None => r matches Ok(f) && f is None,
                Some(pattern) => {
                    &&& (r is Ok <==> glob_compiles(pattern))
                    &&& (r matches Ok(f) ==> f matches Some(f) && f.spec_pattern() == pattern)
                },
            }
        }),
{
    let trimmed = match glob {
        Some(g) => trim_str(g),
        None => String::new(),
    };
    if trimmed.as_str().unicode_len() == 0 {
        return Ok(None);
    }
    let pattern = build_glob_pattern(trimmed.as_str());
    match GlobFilter::build(pattern.as_str()) {
        Ok(filter) => Ok(Some(filter)),
        Err(err) => Err(err),
    }
}

} // verus!
