//! The compiled pattern: an opaque matcher handle built once per request and
//! shared read-only across every file of that request. The regex engine
//! itself is an external collaborator; its compilation and its whole-content
//! test are taken on its own contract.

use vstd::prelude::*;

verus! {

#[verifier::external_type_specification]
#[verifier::external_body]
pub struct ExRegexMatcher(grep_regex::RegexMatcher);

/// Whether the regex engine accepts the pattern under the given flags: a
/// function of the pattern text and the flags alone.
pub uninterp spec fn regex_compiles(pattern: Seq<char>, ignore_case: bool, multiline: bool) -> bool;

/// Whether the compiled pattern matches anywhere in the content: a function
/// of the pattern, its flags and the content alone.
pub uninterp spec fn regex_found(
    pattern: Seq<char>,
    ignore_case: bool,
    multiline: bool,
    content: Seq<u8>,
) -> bool;

/// A compiled pattern: the opaque matcher handle together with the request
/// it was built from. Immutable once created.
pub struct CompiledPattern {
    matcher: grep_regex::RegexMatcher,
    pattern: String,
    ignore_case: bool,
    multiline: bool,
}

impl CompiledPattern {
    /// The pattern text this matcher was compiled from.
    pub closed spec fn spec_pattern(&self) -> Seq<char> {
        self.pattern@
    }

    /// Whether this matcher was compiled case-insensitively.
    pub closed spec fn spec_ignore_case(&self) -> bool {
        self.ignore_case
    }

    /// Whether this matcher was compiled with multiline matching.
    pub closed spec fn spec_multiline(&self) -> bool {
        self.multiline
    }

    /// Relies on `grep_regex::RegexMatcherBuilder::build`: whether a pattern
    /// compiles is a function of the pattern text and the flags alone.
    #[verifier::external_body]
    pub fn compile(pattern: &str, ignore_case: bool, multiline: bool) -> (r: Result<
        CompiledPattern,
        String,
    >)
        ensures
            r is Ok <==> regex_compiles(pattern@, ignore_case, multiline),
            r matches Ok(p) ==> p.spec_pattern() == pattern@ && p.spec_ignore_case() == ignore_case
                && p.spec_multiline() == multiline,
    {
        match grep_regex::RegexMatcherBuilder::new()
            .case_insensitive(ignore_case)
            .multi_line(multiline)
            .build(pattern)
        {
            Ok(matcher) => Ok(CompiledPattern {
                matcher,
                pattern: pattern.to_string(),
                ignore_case,
                multiline,
            }),
            Err(err) => Err(format!("Regex error: {err}")),
        }
    }

    /// Relies on `grep_matcher::Matcher::is_match` for the grep_regex
    /// matcher: the result is a function of the pattern, its flags and the
    /// content alone (its error type is uninhabited).
    #[verifier::external_body]
    pub fn is_match(&self, content: &[u8]) -> (r: bool)
        ensures
            r == regex_found(
                self.spec_pattern(),
                self.spec_ignore_case(),
                self.spec_multiline(),
                content@,
            ),
    {
        grep_matcher::Matcher::is_match(&self.matcher, content).unwrap_or(false)
    }

    /// The underlying matcher handle, for driving a scan.
    pub fn raw(&self) -> &grep_regex::RegexMatcher {
        &self.matcher
    }
}

/// Quick check whether content matches a pattern: compiles the pattern and
/// tests for any match, with no collection and no context. Fails exactly
/// when the pattern does not compile.
pub fn has_match(content: &[u8], pattern: &str, ignore_case: bool, multiline: bool) -> (r: Result<
    bool,
    String,
>)
    ensures
        r is Ok <==> regex_compiles(pattern@, ignore_case, multiline),
        r matches Ok(found) ==> found == regex_found(pattern@, ignore_case, multiline, content@),
{
    match CompiledPattern::compile(pattern, ignore_case, multiline) {
        Ok(compiled) => Ok(compiled.is_match(content)),
        Err(err) => Err(err),
    }
}

} // verus!
