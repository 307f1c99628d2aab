//! Text handling shared by the match collector and the filters: lossy byte
//! decoding, trailing-whitespace trimming, column truncation, and
//! case-insensitive comparison.

use vstd::prelude::*;

verus! {

/// The characters with the Unicode `White_Space` property, the set that
/// `char::is_whitespace` recognizes.
pub open spec fn is_line_ws(c: char) -> bool {
    c == ' ' || c == '\t' || c == '\n' || c == '\r' || c == '\u{0b}' || c == '\u{0c}' || c
        == '\u{85}' || c == '\u{a0}' || c == '\u{1680}' || ('\u{2000}' <= c && c <= '\u{200a}') || c
        == '\u{2028}' || c == '\u{2029}' || c == '\u{202f}' || c == '\u{205f}' || c == '\u{3000}'
}

/// The sequence with all trailing whitespace removed.
pub open spec fn trim_end_ws(s: Seq<char>) -> Seq<char>
    decreases s.len(),
{
    if s.len() > 0 && is_line_ws(s.last()) {
        trim_end_ws(s.drop_last())
    } else {
        s
    }
}

fn is_ws_char(c: char) -> (r: bool)
    ensures
        r == is_line_ws(c),
{
    c == ' ' || c == '\t' || c == '\n' || c == '\r' || c == '\u{0b}' || c == '\u{0c}' || c
        == '\u{85}' || c == '\u{a0}' || c == '\u{1680}' || ('\u{2000}' <= c && c <= '\u{200a}') || c
        == '\u{2028}' || c == '\u{2029}' || c == '\u{202f}' || c == '\u{205f}' || c == '\u{3000}'
}

/// Returns the input with all trailing whitespace removed.
pub fn trim_trailing_ws(s: &str) -> (r: String)
    ensures
        r@ == trim_end_ws(s@),
{
    let len = s.unicode_len();
    proof {
        assert(s@.subrange(0, len as int) =~= s@);
    }
    let mut end = len;
    while end > 0 && is_ws_char(s.get_char(end - 1))
        invariant
            end <= len,
            len == s@.len(),
            trim_end_ws(s@) == trim_end_ws(s@.subrange(0, end as int)),
        decreases end,
    {
        proof {
            assert(s@.subrange(0, end as int).last() == s@[end - 1]);
            assert(s@.subrange(0, end as int).drop_last() =~= s@.subrange(0, end - 1));
        }
        end = end - 1;
    }
    proof {
        if end == len {
            assert(s@.subrange(0, end as int) =~= s@);
        }
        assert(trim_end_ws(s@.subrange(0, end as int)) == s@.subrange(0, end as int));
    }
    String::from_str(s.substring_char(0, end))
}

/// The sequence with all leading whitespace removed.
pub open spec fn trim_start_ws(s: Seq<char>) -> Seq<char>
    decreases s.len(),
{
    if s.len() > 0 && is_line_ws(s.first()) {
        trim_start_ws(s.drop_first())
    } else {
        s
    }
}

/// The sequence with leading and trailing whitespace removed.
pub open spec fn trim_ws(s: Seq<char>) -> Seq<char> {
    trim_start_ws(trim_end_ws(s))
}

/// Returns the input with leading and trailing whitespace removed.
pub fn trim_str(s: &str) -> (r: String)
    ensures
        r@ == trim_ws(s@),
{
    let len = s.unicode_len();
    proof {
        assert(s@.subrange(0, len as int) =~= s@);
    }
    let mut end = len;
    while end > 0 && is_ws_char(s.get_char(end - 1))
        invariant
            end <= len,
            len == s@.len(),
            trim_end_ws(s@) == trim_end_ws(s@.subrange(0, end as int)),
        decreases end,
    {
        proof {
            assert(s@.subrange(0, end as int).last() == s@[end - 1]);
            assert(s@.subrange(0, end as int).drop_last() =~= s@.subrange(0, end - 1));
        }
        end = end - 1;
    }
    proof {
        assert(trim_end_ws(s@.subrange(0, end as int)) == s@.subrange(0, end as int));
    }
    let ghost trimmed_end = s@.subrange(0, end as int);
    let mut start: usize = 0;
    while start < end && is_ws_char(s.get_char(start))
        invariant
            start <= end,
            end <= len,
            len == s@.len(),
            trim_end_ws(s@) == trimmed_end,
            trimmed_end == s@.subrange(0, end as int),
            trim_start_ws(trimmed_end) == trim_start_ws(s@.subrange(start as int, end as int)),
        decreases end - start,
    {
        proof {
            assert(s@.subrange(start as int, end as int).first() == s@[start as int]);
            assert(s@.subrange(start as int, end as int).drop_first() =~= s@.subrange(
                start as int + 1,
                end as int,
            ));
        }
        start = start + 1;
    }
    proof {
        assert(trim_start_ws(s@.subrange(start as int, end as int)) == s@.subrange(
            start as int,
            end as int,
        ));
    }
    String::from_str(s.substring_char(start, end))
}

/// The ASCII code point of `c` with an ASCII upper-case letter folded to
/// lower case; other characters keep their own code point.
pub open spec fn lower_code(c: char) -> int {
    if 'A' <= c && c <= 'Z' {
        c as int + 32
    } else {
        c as int
    }
}

/// Equality up to ASCII case, the relation `str::eq_ignore_ascii_case`
/// decides.
pub open spec fn eq_ignore_ascii_case(a: Seq<char>, b: Seq<char>) -> bool {
    a.len() == b.len() && forall|i: int|
        0 <= i < a.len() ==> #[trigger] lower_code(a[i]) == lower_code(b[i])
}

/// Compares two strings for equality up to ASCII case.
pub fn str_eq_ignore_ascii_case(a: &str, b: &str) -> (r: bool)
    ensures
        r == eq_ignore_ascii_case(a@, b@),
{
    let a_len = a.unicode_len();
    let b_len = b.unicode_len();
    if a_len != b_len {
        return false;
    }
    let mut i: usize = 0;
    while i < a_len
        invariant
            i <= a_len,
            a_len == a@.len(),
            a_len == b@.len(),
            forall|j: int| 0 <= j < i ==> #[trigger] lower_code(a@[j]) == lower_code(b@[j]),
        decreases a_len - i,
    {
        let ca = a.get_char(i);
        let cb = b.get_char(i);
        let la: u32 = if ca >= 'A' && ca <= 'Z' {
            ca as u32 + 32
        } else {
            ca as u32
        };
        let lb: u32 = if cb >= 'A' && cb <= 'Z' {
            cb as u32 + 32
        } else {
            cb as u32
        };
        if la != lb {
            proof {
                assert(la as int == lower_code(a@[i as int]));
                assert(lb as int == lower_code(b@[i as int]));
            }
            return false;
        }
        i = i + 1;
    }
    true
}

/// Compares two strings character by character.
pub fn str_eq(a: &str, b: &str) -> (r: bool)
    ensures
        r == (a@ == b@),
{
    let a_len = a.unicode_len();
    let b_len = b.unicode_len();
    if a_len != b_len {
        return false;
    }
    let mut i: usize = 0;
    while i < a_len
        invariant
            i <= a_len,
            a_len == a@.len(),
            a_len == b@.len(),
            forall|j: int| 0 <= j < i ==> a@[j] == b@[j],
        decreases a_len - i,
    {
        if a.get_char(i) != b.get_char(i) {
            return false;
        }
        i = i + 1;
    }
    proof {
        assert(a@ =~= b@);
    }
    true
}

/// Whether `c` occurs in `s`.
pub fn str_contains_char(s: &str, c: char) -> (r: bool)
    ensures
        r == s@.contains(c),
{
    let len = s.unicode_len();
    let mut i: usize = 0;
    while i < len
        invariant
            i <= len,
            len == s@.len(),
            forall|j: int| 0 <= j < i ==> s@[j] != c,
        decreases len - i,
    {
        if s.get_char(i) == c {
            return true;
        }
        i = i + 1;
    }
    false
}

/// Lexicographic order on character sequences, the deterministic order the
/// final report sorts file paths by.
pub open spec fn lex_le(a: Seq<char>, b: Seq<char>) -> bool
    decreases a.len(),
{
    if a.len() == 0 {
        true
    } else if b.len() == 0 {
        false
    } else if a.first() < b.first() {
        true
    } else if a.first() > b.first() {
        false
    } else {
        lex_le(a.drop_first(), b.drop_first())
    }
}

/// Two sequences with a common prefix compare as their remainders do.
proof fn lemma_lex_le_skip(a: Seq<char>, b: Seq<char>, i: int)
    requires
        0 <= i <= a.len(),
        i <= b.len(),
        forall|j: int| 0 <= j < i ==> a[j] == b[j],
    ensures
        lex_le(a, b) == lex_le(a.skip(i), b.skip(i)),
    decreases i,
{
    if i > 0 {
        assert(a.first() == b.first());
        lemma_lex_le_skip(a.drop_first(), b.drop_first(), i - 1);
        assert(a.drop_first().skip(i - 1) =~= a.skip(i));
        assert(b.drop_first().skip(i - 1) =~= b.skip(i));
    } else {
        assert(a.skip(0) =~= a);
        assert(b.skip(0) =~= b);
    }
}

/// Lexicographic order is total.
pub proof fn lemma_lex_total(a: Seq<char>, b: Seq<char>)
    ensures
        lex_le(a, b) || lex_le(b, a),
    decreases a.len(),
{
    if a.len() > 0 && b.len() > 0 && a.first() == b.first() {
        lemma_lex_total(a.drop_first(), b.drop_first());
    }
}

/// Lexicographic order is reflexive.
pub proof fn lemma_lex_refl(a: Seq<char>)
    ensures
        lex_le(a, a),
    decreases a.len(),
{
    if a.len() > 0 {
        lemma_lex_refl(a.drop_first());
    }
}

/// Lexicographic order is transitive.
pub proof fn lemma_lex_trans(a: Seq<char>, b: Seq<char>, c: Seq<char>)
    requires
        lex_le(a, b),
        lex_le(b, c),
    ensures
        lex_le(a, c),
    decreases a.len(),
{
    if a.len() > 0 {
        if a.first() == b.first() && b.first() == c.first() {
            lemma_lex_trans(a.drop_first(), b.drop_first(), c.drop_first());
        }
    }
}

/// Compares two strings in lexicographic character order.
pub fn str_le(a: &str, b: &str) -> (r: bool)
    ensures
        r == lex_le(a@, b@),
{
    let a_len = a.unicode_len();
    let b_len = b.unicode_len();
    let stop = if a_len < b_len {
        a_len
    } else {
        b_len
    };
    let mut i: usize = 0;
    while i < stop
        invariant
            i <= stop,
            stop <= a_len,
            stop <= b_len,
            a_len == a@.len(),
            b_len == b@.len(),
            stop == if a_len < b_len {
                a_len as int
            } else {
                b_len as int
            },
            forall|j: int| 0 <= j < i ==> a@[j] == b@[j],
        decreases stop - i,
    {
        let ca = a.get_char(i);
        let cb = b.get_char(i);
        if ca < cb {
            proof {
                lemma_lex_le_skip(a@, b@, i as int);
                assert(a@.skip(i as int).first() == ca);
                assert(b@.skip(i as int).first() == cb);
            }
            return true;
        }
        if cb < ca {
            proof {
                lemma_lex_le_skip(a@, b@, i as int);
                assert(a@.skip(i as int).first() == ca);
                assert(b@.skip(i as int).first() == cb);
            }
            return false;
        }
        i = i + 1;
    }
    proof {
        lemma_lex_le_skip(a@, b@, stop as int);
        if a_len <= b_len {
            assert(a@.skip(stop as int).len() == 0);
        } else {
            assert(b@.skip(stop as int).len() == 0);
            assert(a@.skip(stop as int).len() > 0);
        }
    }
    a_len <= b_len
}

/// Whether `c` is an ASCII code point.
pub open spec fn is_ascii_char(c: char) -> bool {
    (c as u32) < 128
}

/// Whether every character is an ASCII code point.
pub open spec fn seq_is_ascii(s: Seq<char>) -> bool {
    forall|i: int| 0 <= i < s.len() ==> is_ascii_char(#[trigger] s[i])
}

pub fn chars_are_ascii(s: &str) -> (r: bool)
    ensures
        r == seq_is_ascii(s@),
{
    let len = s.unicode_len();
    let mut i: usize = 0;
    while i < len
        invariant
            i <= len,
            len == s@.len(),
            forall|j: int| 0 <= j < i ==> is_ascii_char(#[trigger] s@[j]),
        decreases len - i,
    {
        let c = s.get_char(i);
        if !((c as u32) < 128) {
            return false;
        }
        i = i + 1;
    }
    true
}

/// What `String::from_utf8_lossy` returns: a function of the bytes alone.
pub uninterp spec fn lossy_of(bytes: Seq<u8>) -> Seq<char>;

/// Relies on `String::from_utf8_lossy`: the result depends on the bytes
/// alone, and bytes that form valid UTF-8 decode unchanged.
#[verifier::external_body]
pub fn utf8_lossy(bytes: &[u8]) -> (r: String)
    ensures
        r@ == lossy_of(bytes@),
        vstd::utf8::valid_utf8(bytes@) ==> r@ == vstd::utf8::decode_utf8(bytes@),
{
    String::from_utf8_lossy(bytes).into_owned()
}

/// What `str::to_lowercase` returns: a function of the characters alone.
pub uninterp spec fn lower_of(s: Seq<char>) -> Seq<char>;

/// Relies on `str::to_lowercase`: the result depends on the characters
/// alone, and an all-ASCII string maps to its ASCII lower-case form.
#[verifier::external_body]
pub fn to_lowercase(s: &str) -> (r: String)
    ensures
        r@ == lower_of(s@),
        seq_is_ascii(s@) ==> r@.len() == s@.len() && seq_is_ascii(r@) && forall|i: int|
            0 <= i < s@.len() ==> #[trigger] lower_code(r@[i]) == lower_code(s@[i]) && !('A'
                <= r@[i] && r@[i] <= 'Z'),
{
    s.to_lowercase()
}

/// A line decoded from raw bytes: lossy UTF-8 conversion with trailing
/// whitespace removed.
pub open spec fn sanitize_spec(raw: Seq<u8>) -> Seq<char> {
    trim_end_ws(lossy_of(raw))
}

/// Decodes a raw line as the collector stores it: lossy UTF-8 conversion,
/// then trailing whitespace removed.
pub fn bytes_to_trimmed_string(bytes: &[u8]) -> (r: String)
    ensures
        r@ == sanitize_spec(bytes@),
{
    let decoded = utf8_lossy(bytes);
    trim_trailing_ws(decoded.as_str())
}

/// The views of a list of strings.
pub open spec fn string_views(v: Seq<String>) -> Seq<Seq<char>> {
    v.map_values(|s: String| s@)
}

/// The ellipsis appended to a truncated line.
pub open spec fn ellipsis() -> Seq<char> {
    seq!['.', '.', '.']
}

/// How many leading characters a truncated line keeps.
pub open spec fn keep_len(max: usize) -> int {
    if max >= 3 {
        max - 3
    } else {
        0
    }
}

/// The text a line turns into under a column budget, and whether it was cut:
/// a line over the budget is cut to `keep_len` characters plus an ellipsis.
pub open spec fn truncate_spec(line: Seq<char>, max_columns: Option<usize>) -> (Seq<char>, bool) {
    match max_columns {
        Some(max) => if line.len() > max {
            (line.subrange(0, keep_len(max)) + ellipsis(), true)
        } else {
            (line, false)
        },
        None => (line, false),
    }
}

/// Applies the column budget to a line, appending an ellipsis when the line
/// exceeds it.
pub fn truncate_line(line: String, max_columns: Option<usize>) -> (r: (String, bool))
    ensures
        (r.0@, r.1) == truncate_spec(line@, max_columns),
{
    match max_columns {
        Some(max) => {
            let len = line.as_str().unicode_len();
            if len > max {
                let keep = if max >= 3 {
                    max - 3
                } else {
                    0
                };
                let mut cut = String::from_str(line.as_str().substring_char(0, keep));
                cut.append("...");
                proof {
                    reveal_strlit("...");
                    assert(("...")@ =~= ellipsis());
                }
                (cut, true)
            } else {
                (line, false)
            }
        },
        None => (line, false),
    }
}

} // verus!
