//! The file-type filter: a shorthand resolved through a fixed table to a set
//! of extensions and bare names, matched case-insensitively against a path's
//! base name, plus the combined per-file predicate (glob and type filter
//! must both accept a file).

use vstd::prelude::*;

use crate::glob::{glob_matches, GlobFilter};
use crate::text::{
    chars_are_ascii, eq_ignore_ascii_case, lower_of, seq_is_ascii, str_eq,
    str_eq_ignore_ascii_case, string_views, to_lowercase, trim_str, trim_ws,
};

verus! {

/// A file-type filter: a file matches if its extension or its exact base
/// name (case-insensitive) is in the respective set.
pub struct TypeFilter {
    pub extensions: Vec<String>,
    pub names: Vec<String>,
}

/// The mathematical value of a [`TypeFilter`].
#[verifier::ext_equal]
pub struct TypeFilterModel {
    pub extensions: Seq<Seq<char>>,
    pub names: Seq<Seq<char>>,
}

impl View for TypeFilter {
    type V = TypeFilterModel;

    open spec fn view(&self) -> TypeFilterModel {
        TypeFilterModel {
            extensions: string_views(self.extensions@),
            names: string_views(self.names@),
        }
    }
}

/// A filter that accepts a set of extensions and no bare names.
pub open spec fn exts_filter(extensions: Seq<Seq<char>>) -> TypeFilterModel {
    TypeFilterModel { extensions, names: Seq::empty() }
}

/// A filter that accepts a set of bare file names and no extensions.
pub open spec fn names_filter(names: Seq<Seq<char>>) -> TypeFilterModel {
    TypeFilterModel { extensions: Seq::empty(), names }
}

/// The fixed lookup table from a normalized (trimmed, dot-stripped,
/// lower-cased) shorthand to its filter; an unknown shorthand falls back to
/// being treated as a single extension.
pub open spec fn type_table_spec(n: Seq<char>) -> TypeFilterModel {
    if n == "js"@ || n == "javascript"@ {
        exts_filter(seq!["js"@, "jsx"@, "mjs"@, "cjs"@])
    } else if n == "ts"@ || n == "typescript"@ {
        exts_filter(seq!["ts"@, "tsx"@, "mts"@, "cts"@])
    } else if n == "json"@ {
        exts_filter(seq!["json"@, "jsonc"@, "json5"@])
    } else if n == "yaml"@ || n == "yml"@ {
        exts_filter(seq!["yaml"@, "yml"@])
    } else if n == "toml"@ {
        exts_filter(seq!["toml"@])
    } else if n == "md"@ || n == "markdown"@ {
        exts_filter(seq!["md"@, "markdown"@, "mdx"@])
    } else if n == "py"@ || n == "python"@ {
        exts_filter(seq!["py"@, "pyi"@])
    } else if n == "rs"@ || n == "rust"@ {
        exts_filter(seq!["rs"@])
    } else if n == "go"@ {
        exts_filter(seq!["go"@])
    } else if n == "java"@ {
        exts_filter(seq!["java"@])
    } else if n == "kt"@ || n == "kotlin"@ {
        exts_filter(seq!["kt"@, "kts"@])
    } else if n == "c"@ {
        exts_filter(seq!["c"@, "h"@])
    } else if n == "cpp"@ || n == "cxx"@ {
        exts_filter(seq!["cpp"@, "cc"@, "cxx"@, "hpp"@, "hxx"@, "hh"@])
    } else if n == "cs"@ || n == "csharp"@ {
        exts_filter(seq!["cs"@, "csx"@])
    } else if n == "php"@ {
        exts_filter(seq!["php"@, "phtml"@])
    } else if n == "rb"@ || n == "ruby"@ {
        exts_filter(seq!["rb"@, "rake"@, "gemspec"@])
    } else if n == "sh"@ || n == "bash"@ {
        exts_filter(seq!["sh"@, "bash"@, "zsh"@])
    } else if n == "zsh"@ {
        exts_filter(seq!["zsh"@])
    } else if n == "fish"@ {
        exts_filter(seq!["fish"@])
    } else if n == "html"@ {
        exts_filter(seq!["html"@, "htm"@])
    } else if n == "css"@ {
        exts_filter(seq!["css"@])
    } else if n == "scss"@ {
        exts_filter(seq!["scss"@])
    } else if n == "sass"@ {
        exts_filter(seq!["sass"@])
    } else if n == "less"@ {
        exts_filter(seq!["less"@])
    } else if n == "xml"@ {
        exts_filter(seq!["xml"@])
    } else if n == "docker"@ || n == "dockerfile"@ {
        names_filter(seq!["dockerfile"@])
    } else if n == "make"@ || n == "makefile"@ {
        names_filter(seq!["makefile"@])
    } else {
        exts_filter(seq![n])
    }
}

/// The sequence with all leading dots removed.
pub open spec fn strip_dots(s: Seq<char>) -> Seq<char>
    decreases s.len(),
{
    if s.len() > 0 && s.first() == '.' {
        strip_dots(s.drop_first())
    } else {
        s
    }
}

/// What `resolve_type_filter` yields: an absent or blank shorthand means no
/// filter; otherwise the shorthand is trimmed, stripped of leading dots,
/// lower-cased and looked up in the fixed table.
pub open spec fn resolve_type_filter_spec(name: Option<Seq<char>>) -> Option<TypeFilterModel> {
    match name {
        Some(s) => {
            let t = trim_ws(s);
            if t.len() == 0 {
                None
            } else {
                Some(type_table_spec(lower_of(strip_dots(t))))
            }
        },
        None => None,
    }
}

/// The view of an optional filter.
pub open spec fn opt_filter_view(r: Option<TypeFilter>) -> Option<TypeFilterModel> {
    match r {
        Some(f) => Some(f@),
        None => None,
    }
}

fn make_strings(parts: Vec<&str>) -> (r: Vec<String>)
    ensures
        r@.len() == parts@.len(),
        forall|i: int| 0 <= i < parts@.len() ==> (#[trigger] r@[i])@ == parts@[i]@,
{
    let mut out: Vec<String> = Vec::new();
    let mut i: usize = 0;
    while i < parts.len()
        invariant
            i <= parts@.len(),
            out@.len() == i,
            forall|j: int| 0 <= j < i ==> (#[trigger] out@[j])@ == parts@[j]@,
        decreases parts@.len() - i,
    {
        out.push(String::from_str(parts[i]));
        i = i + 1;
    }
    out
}

fn make_filter(extensions: Vec<&str>, names: Vec<&str>) -> (r: TypeFilter)
    ensures
        r@.extensions.len() == extensions@.len(),
        forall|i: int| 0 <= i < extensions@.len() ==> #[trigger] r@.extensions[i]
            == extensions@[i]@,
        r@.names.len() == names@.len(),
        forall|i: int| 0 <= i < names@.len() ==> #[trigger] r@.names[i] == names@[i]@,
{
    TypeFilter { extensions: make_strings(extensions), names: make_strings(names) }
}

/// Maps a type shorthand to its filter through the fixed table; unknown
/// shorthands fall back to a single extension, and an absent or blank
/// shorthand means no filter.
#[verifier::rlimit(60)]
pub fn resolve_type_filter(shorthand: Option<&str>) -> (r: Option<TypeFilter>)
    ensures
        opt_filter_view(r) == resolve_type_filter_spec(
            match shorthand {
                Some(s) => Some(s@),
                None => None,
            },
        ),
{
    let name = match shorthand {
        Some(s) => s,
        None => {
            return None;
        },
    };
    let trimmed = trim_str(name);
    let t = trimmed.as_str();
    let tlen = t.unicode_len();
    if tlen == 0 {
        return None;
    }
    let mut start: usize = 0;
    proof {
        assert(t@.skip(0) =~= t@);
    }
    while start < tlen && t.get_char(start) == '.'
        invariant
            start <= tlen,
            tlen == t@.len(),
            strip_dots(t@) == strip_dots(t@.skip(start as int)),
        decreases tlen - start,
    {
        proof {
            assert(t@.skip(start as int).first() == t@[start as int]);
            assert(t@.skip(start as int).drop_first() =~= t@.skip(start as int + 1));
        }
        start = start + 1;
    }
    proof {
        assert(strip_dots(t@.skip(start as int)) == t@.skip(start as int));
        assert(t@.subrange(start as int, tlen as int) =~= t@.skip(start as int));
    }
    let stripped = t.substring_char(start, tlen);
    let lowered = to_lowercase(stripped);
    let n = lowered.as_str();
    let ghost key = lower_of(strip_dots(trim_ws(name@)));
    let filter: TypeFilter = if str_eq(n, "js") || str_eq(n, "javascript") {
        make_filter(vec!["js", "jsx", "mjs", "cjs"], vec![])
    } else if str_eq(n, "ts") || str_eq(n, "typescript") {
        make_filter(vec!["ts", "tsx", "mts", "cts"], vec![])
    } else if str_eq(n, "json") {
        make_filter(vec!["json", "jsonc", "json5"], vec![])
    } else if str_eq(n, "yaml") || str_eq(n, "yml") {
        make_filter(vec!["yaml", "yml"], vec![])
    } else if str_eq(n, "toml") {
        make_filter(vec!["toml"], vec![])
    } else if str_eq(n, "md") || str_eq(n, "markdown") {
        make_filter(vec!["md", "markdown", "mdx"], vec![])
    } else if str_eq(n, "py") || str_eq(n, "python") {
        make_filter(vec!["py", "pyi"], vec![])
    } else if str_eq(n, "rs") || str_eq(n, "rust") {
        make_filter(vec!["rs"], vec![])
    } else if str_eq(n, "go") {
        make_filter(vec!["go"], vec![])
    } else if str_eq(n, "java") {
        make_filter(vec!["java"], vec![])
    } else if str_eq(n, "kt") || str_eq(n, "kotlin") {
        make_filter(vec!["kt", "kts"], vec![])
    } else if str_eq(n, "c") {
        make_filter(vec!["c", "h"], vec![])
    } else if str_eq(n, "cpp") || str_eq(n, "cxx") {
        make_filter(vec!["cpp", "cc", "cxx", "hpp", "hxx", "hh"], vec![])
    } else if str_eq(n, "cs") || str_eq(n, "csharp") {
        make_filter(vec!["cs", "csx"], vec![])
    } else if str_eq(n, "php") {
        make_filter(vec!["php", "phtml"], vec![])
    } else if str_eq(n, "rb") || str_eq(n, "ruby") {
        make_filter(vec!["rb", "rake", "gemspec"], vec![])
    } else if str_eq(n, "sh") || str_eq(n, "bash") {
        make_filter(vec!["sh", "bash", "zsh"], vec![])
    } else if str_eq(n, "zsh") {
        make_filter(vec!["zsh"], vec![])
    } else if str_eq(n, "fish") {
        make_filter(vec!["fish"], vec![])
    } else if str_eq(n, "html") {
        make_filter(vec!["html", "htm"], vec![])
    } else if str_eq(n, "css") {
        make_filter(vec!["css"], vec![])
    } else if str_eq(n, "scss") {
        make_filter(vec!["scss"], vec![])
    } else if str_eq(n, "sass") {
        make_filter(vec!["sass"], vec![])
    } else if str_eq(n, "less") {
        make_filter(vec!["less"], vec![])
    } else if str_eq(n, "xml") {
        make_filter(vec!["xml"], vec![])
    } else if str_eq(n, "docker") || str_eq(n, "dockerfile") {
        make_filter(vec![], vec!["dockerfile"])
    } else if str_eq(n, "make") || str_eq(n, "makefile") {
        make_filter(vec![], vec!["makefile"])
    } else {
        let mut extensions: Vec<String> = Vec::new();
        extensions.push(lowered);
        TypeFilter { extensions, names: Vec::new() }
    };
    proof {
        assert(filter@ =~~= type_table_spec(key));
    }
    Some(filter)
}

/// Whether the value matches one of the candidates, ignoring case: ASCII
/// values fold ASCII case, others are compared against their full lower-case
/// form (candidates in the fixed table are already lower case).
pub open spec fn matches_ci_spec(value: Seq<char>, candidates: Seq<Seq<char>>) -> bool {
    if seq_is_ascii(value) {
        exists|i: int|
            0 <= i < candidates.len() && eq_ignore_ascii_case(value, #[trigger] candidates[i])
    } else {
        exists|i: int| 0 <= i < candidates.len() && #[trigger] candidates[i] == lower_of(value)
    }
}

/// Whether the value equals one of the candidates up to case.
pub fn matches_case_insensitive(value: &str, candidates: &Vec<String>) -> (r: bool)
    ensures
        r == matches_ci_spec(value@, string_views(candidates@)),
{
    let ghost cand = string_views(candidates@);
    if chars_are_ascii(value) {
        let mut i: usize = 0;
        while i < candidates.len()
            invariant
                seq_is_ascii(value@),
                i <= candidates@.len(),
                cand == string_views(candidates@),
                forall|j: int| 0 <= j < i ==> !eq_ignore_ascii_case(value@, #[trigger] cand[j]),
            decreases candidates@.len() - i,
        {
            if str_eq_ignore_ascii_case(value, candidates[i].as_str()) {
                proof {
                    assert(cand.len() == candidates@.len());
                    assert(exists|j: int|
                        0 <= j < cand.len() && eq_ignore_ascii_case(
                            value@,
                            #[trigger] cand[j],
                        )) by {
                        assert(eq_ignore_ascii_case(value@, cand[i as int]));
                    }
                }
                return true;
            }
            i = i + 1;
        }
        false
    } else {
        let lowered = to_lowercase(value);
        let mut i: usize = 0;
        while i < candidates.len()
            invariant
                !seq_is_ascii(value@),
                i <= candidates@.len(),
                cand == string_views(candidates@),
                lowered@ == lower_of(value@),
                forall|j: int| 0 <= j < i ==> #[trigger] cand[j] != lower_of(value@),
            decreases candidates@.len() - i,
        {
            if str_eq(candidates[i].as_str(), lowered.as_str()) {
                proof {
                    assert(cand.len() == candidates@.len());
                    assert(exists|j: int|
                        0 <= j < cand.len() && #[trigger] cand[j] == lower_of(value@)) by {
                        assert(cand[i as int] == lower_of(value@));
                    }
                }
                return true;
            }
            i = i + 1;
        }
        false
    }
}

/// The suffix of `s` after the last occurrence of `c`, or all of `s` when
/// `c` does not occur.
pub open spec fn suffix_after_last(s: Seq<char>, c: char) -> Seq<char>
    decreases s.len(),
{
    if s.len() == 0 {
        s
    } else if s.last() == c {
        Seq::empty()
    } else {
        suffix_after_last(s.drop_last(), c).push(s.last())
    }
}

proof fn lemma_suffix_after_last_found(s: Seq<char>, c: char, k: int)
    requires
        0 <= k < s.len(),
        s[k] == c,
        forall|j: int| k < j < s.len() ==> s[j] != c,
    ensures
        suffix_after_last(s, c) =~= s.subrange(k + 1, s.len() as int),
    decreases s.len(),
{
    if k == s.len() - 1 {
    } else {
        assert(s.drop_last() =~= s.subrange(0, s.len() - 1));
        lemma_suffix_after_last_found(s.drop_last(), c, k);
        assert(suffix_after_last(s, c) =~= s.subrange(k + 1, s.len() as int));
    }
}

proof fn lemma_suffix_after_last_absent(s: Seq<char>, c: char)
    requires
        !s.contains(c),
    ensures
        suffix_after_last(s, c) =~= s,
    decreases s.len(),
{
    if s.len() > 0 {
        assert(s.last() != c);
        assert(!s.drop_last().contains(c)) by {
            if s.drop_last().contains(c) {
                let j = choose|j: int| 0 <= j < s.drop_last().len() && s.drop_last()[j] == c;
                assert(s[j] == c);
            }
        }
        lemma_suffix_after_last_absent(s.drop_last(), c);
    }
}

/// The base name of a path with `/` separators.
pub open spec fn base_name_spec(path: Seq<char>) -> Seq<char> {
    suffix_after_last(path, '/')
}

/// The extension of a base name: what follows the final dot, provided a dot
/// occurs past the first character (so a leading-dot name alone has no
/// extension).
pub open spec fn extension_spec(base: Seq<char>) -> Option<Seq<char>> {
    if base.len() >= 1 && base.skip(1).contains('.') {
        Some(suffix_after_last(base, '.'))
    } else {
        None
    }
}

/// Whether the type filter accepts a path: its base name is one of the bare
/// names, or its non-empty extension is one of the extensions.
pub open spec fn type_filter_match_spec(path: Seq<char>, f: TypeFilterModel) -> bool {
    let base = base_name_spec(path);
    if matches_ci_spec(base, f.names) {
        true
    } else {
        match extension_spec(base) {
            Some(e) => e.len() > 0 && matches_ci_spec(e, f.extensions),
            None => false,
        }
    }
}

fn last_char_index(s: &str, c: char) -> (r: Option<usize>)
    ensures
        match r {
            Some(k) => k < s@.len() && s@[k as int] == c && forall|j: int|
                k < j < s@.len() ==> s@[j] != c,
            None => !s@.contains(c),
        },
{
    let len = s.unicode_len();
    let mut found: Option<usize> = None;
    let mut i: usize = 0;
    while i < len
        invariant
            i <= len,
            len == s@.len(),
            match found {
                Some(k) => k < i && s@[k as int] == c && forall|j: int| k < j < i ==> s@[j] != c,
                None => forall|j: int| 0 <= j < i ==> s@[j] != c,
            },
        decreases len - i,
    {
        if s.get_char(i) == c {
            found = Some(i);
        }
        i = i + 1;
    }
    proof {
        if found is None && s@.contains(c) {
            let j = choose|j: int| 0 <= j < s@.len() && s@[j] == c;
            assert(false);
        }
    }
    found
}

/// Whether the type filter accepts a path (base name or extension matches,
/// case-insensitively).
pub fn matches_type_filter(path: &str, filter: &TypeFilter) -> (r: bool)
    ensures
        r == type_filter_match_spec(path@, filter@),
{
    let len = path.unicode_len();
    let base_owned: String;
    let base: &str = match last_char_index(path, '/') {
        Some(k) => {
            proof {
                lemma_suffix_after_last_found(path@, '/', k as int);
            }
            base_owned = String::from_str(path.substring_char(k + 1, len));
            base_owned.as_str()
        },
        None => {
            proof {
                lemma_suffix_after_last_absent(path@, '/');
            }
            path
        },
    };
    if matches_case_insensitive(base, &filter.names) {
        return true;
    }
    let blen = base.unicode_len();
    match last_char_index(base, '.') {
        Some(k) => {
            if k >= 1 {
                proof {
                    lemma_suffix_after_last_found(base@, '.', k as int);
                    assert(base@.skip(1)[k - 1] == '.');
                    assert(base@.skip(1).contains('.'));
                }
                let ext = base.substring_char(k + 1, blen);
                if ext.unicode_len() == 0 {
                    false
                } else {
                    matches_case_insensitive(ext, &filter.extensions)
                }
            } else {
                proof {
                    if base@.skip(1).contains('.') {
                        let j = choose|j: int|
                            0 <= j < base@.skip(1).len() && base@.skip(1)[j] == '.';
                        assert(base@.skip(1)[j] == base@[j + 1]);
                        assert(false);
                    }
                }
                false
            }
        },
        None => {
            proof {
                if base@.len() >= 1 && base@.skip(1).contains('.') {
                    let j = choose|j: int| 0 <= j < base@.skip(1).len() && base@.skip(1)[j] == '.';
                    assert(base@.skip(1)[j] == base@[j + 1]);
                    assert(false);
                }
            }
            false
        },
    }
}

/// Whether a file passes the combined filters: when both a glob and a type
/// filter are present, it must satisfy both to be included. (The exact glob
/// claim holds for the `/`-separated paths the engine matches.)
pub fn entry_passes(
    relative_path: &str,
    glob: Option<&GlobFilter>,
    type_filter: Option<&TypeFilter>,
) -> (r: bool)
    ensures
        !relative_path@.contains('\\') ==> r == ({
            &&& match glob {
                Some(g) => glob_matches(g.spec_pattern(), relative_path@),
                None => true,
            }
            &&& match type_filter {
                Some(f) => type_filter_match_spec(relative_path@, f@),
                None => true,
            }
        }),
{
    let glob_ok = match glob {
        Some(g) => g.is_match(relative_path),
        None => true,
    };
    if !glob_ok {
        return false;
    }
    match type_filter {
        Some(f) => matches_type_filter(relative_path, f),
        None => true,
    }
}

} // verus!
