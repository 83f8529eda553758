//! The calls this library makes into outside crates, each with the
//! contract that the crate's documentation or source gives it.
//!
//! Regular expressions are handed over as pattern text and compiled by the
//! `regex` crate inside each call; what a pattern matches is named, not
//! restated, since the crate's matching semantics take pages to state.

use sha2::Digest;
use vstd::prelude::*;

verus! {

// ---------------------------------------------------------------------
// regex
// ---------------------------------------------------------------------

/// Whether `regex::Regex::new` accepts `pattern`.
pub uninterp spec fn regex_valid(pattern: Seq<char>) -> bool;

/// What `Regex::is_match` answers for `haystack`, the regex compiled from
/// `pattern`.
pub uninterp spec fn regex_matches(pattern: Seq<char>, haystack: Seq<char>) -> bool;

/// How many non-overlapping matches `Regex::find_iter` yields in `haystack`.
pub uninterp spec fn regex_match_count(pattern: Seq<char>, haystack: Seq<char>) -> usize;

/// What `Regex::replace_all` makes of `haystack` with `replacement`.
pub uninterp spec fn regex_replaced(
    pattern: Seq<char>,
    haystack: Seq<char>,
    replacement: Seq<char>,
) -> Seq<char>;

/// The text of capture group 1 in the first match that `Regex::captures`
/// finds in `haystack`, if there is a match and the group took part in it.
pub uninterp spec fn regex_first_group(pattern: Seq<char>, haystack: Seq<char>) -> Option<Seq<char>>;

/// The pattern `\.\.[\\/]`: two literal dots, then a slash or a
/// backslash.
pub open spec fn dot_dot_separator_pattern() -> Seq<char> {
    "\\.\\.[\\\\/]"@
}

/// Whether `h` holds two dots followed by a slash or a backslash.
pub open spec fn has_dot_dot_separator(h: Seq<char>) -> bool {
    exists|i: int|
        0 <= i && i + 2 < h.len() && #[trigger] h[i] == '.' && h[i + 1] == '.' && (h[i + 2] == '/' || h[i + 2]
            == '\\')
}

/// The pattern `^[a-z0-9]([a-z0-9\-]*[a-z0-9])?$`: a whole haystack of
/// lower-case ASCII letters, digits and hyphens, neither starting nor
/// ending with a hyphen.
pub open spec fn lower_hyphen_name_pattern() -> Seq<char> {
    "^[a-z0-9]([a-z0-9\\-]*[a-z0-9])?$"@
}

/// A lower-case ASCII letter or an ASCII digit.
pub open spec fn is_lower_alnum(c: char) -> bool {
    ('a' <= c && c <= 'z') || ('0' <= c && c <= '9')
}

/// Whether `h` is non-empty, made of lower-case ASCII letters, digits and
/// hyphens, and neither starts nor ends with a hyphen.
pub open spec fn is_lower_hyphen_name(h: Seq<char>) -> bool {
    &&& h.len() > 0
    &&& forall|i: int| 0 <= i < h.len() ==> is_lower_alnum(#[trigger] h[i]) || h[i] == '-'
    &&& h[0] != '-'
    &&& h[h.len() - 1] != '-'
}

/// Fixed patterns written only with syntax the crate documents: literal
/// characters, escaped meta characters (`\.`, `\$`, `\{`, `\}`), `.`, `?`,
/// `*`, groups, the classes `[a-z0-9]`-style and `\d`, and the anchors `^`
/// and `$`; each a few dozen characters long.
pub open spec fn fixed_patterns() -> Seq<Seq<char>> {
    seq![
        "\\.\\.[\\\\/]"@,
        "^[a-z0-9]([a-z0-9\\-]*[a-z0-9])?$"@,
        "v?(\\d+\\.\\d+(?:\\.\\d+)?(?:-[a-zA-Z0-9.]+)?)"@,
        "/usr/local/bin"@,
        "/usr/bin"@,
        "~/.local/share"@,
        "~/.local/state"@,
        "~/.local/bin"@,
        "~/.config"@,
        "~/.cache"@,
        "\\$\\{HOME\\}"@,
        "\\$HOME"@,
        "\\$\\{?XDG_CONFIG_HOME\\}?"@,
        "\\$\\{?XDG_CACHE_HOME\\}?"@,
        "\\$\\{?XDG_DATA_HOME\\}?"@,
        "\\$\\{?XDG_STATE_HOME\\}?"@,
    ]
}

/// The suffixes put after an escaped literal in the patterns below.
pub open spec fn literal_suffixes() -> Seq<Seq<char>> {
    seq!["/.local/share"@, "/.local/state"@, "/.local/bin"@, "/.config"@, "/.cache"@]
}

/// The longest literal, in characters, that the claim below covers.
pub open spec fn escaped_literal_limit() -> nat {
    4096
}

/// Whether `p` is text of at most `escaped_literal_limit()` characters passed
/// through `regex::escape`, followed by one of `literal_suffixes()`.
pub open spec fn is_escaped_literal_pattern(p: Seq<char>) -> bool {
    exists|text: Seq<char>, suffix: Seq<char>|
        text.len() <= escaped_literal_limit() && #[trigger] literal_suffixes().contains(suffix) && p
            == #[trigger] regex_escaped(text) + suffix
}

/// The patterns the claim below says compile.
pub open spec fn documented_to_compile(p: Seq<char>) -> bool {
    fixed_patterns().contains(p) || is_escaped_literal_pattern(p)
}

/// Calls `regex::Regex::new(pattern)` and reports whether it succeeded.
/// Claimed: the answer is `regex_valid` of the pattern. Claimed too that
/// it succeeds for the patterns above: the crate documents their syntax,
/// `regex::escape` documents that its output "may be safely used as a literal
/// in a regular expression", and the only other failure `Regex::new`
/// documents is its size limit (10 MiB for the compiled program, with
/// resources "approximately proportional … to the length of the pattern",
/// counted repetitions aside), which patterns of this length stay far below.
#[verifier::external_body]
pub(crate) fn regex_compiles(pattern: &str) -> (ok: bool)
    ensures
        ok == regex_valid(pattern@),
        documented_to_compile(pattern@) ==> ok,
{
    regex::Regex::new(pattern).is_ok()
}

/// Compiles `pattern` and calls `Regex::is_match(haystack)`.
/// Claimed: the answer is `regex_matches` of pattern and haystack; the
/// compilation cannot fail since the pattern is known valid. For
/// `dot_dot_separator_pattern()` and `lower_hyphen_name_pattern()`, what the crate's syntax documentation gives
/// (`\.` a literal dot, a class `[..]` one of its members, `^` and `$` the
/// start and end of the haystack) and `is_match` answering whether a match
/// occurs anywhere: the answer is the stated shape of the haystack.
#[verifier::external_body]
pub(crate) fn regex_is_match(pattern: &str, haystack: &str) -> (m: bool)
    requires
        regex_valid(pattern@),
    ensures
        m == regex_matches(pattern@, haystack@),
        pattern@ == dot_dot_separator_pattern() ==> (m <==> has_dot_dot_separator(haystack@)),
        pattern@ == lower_hyphen_name_pattern() ==> (m <==> is_lower_hyphen_name(haystack@)),
{
    regex::Regex::new(pattern).unwrap().is_match(haystack)
}

/// Compiles `pattern` and counts the matches of `Regex::find_iter(haystack)`.
/// Claimed: the count is `regex_match_count` of pattern and haystack.
#[verifier::external_body]
pub(crate) fn regex_count_matches(pattern: &str, haystack: &str) -> (n: usize)
    requires
        regex_valid(pattern@),
    ensures
        n == regex_match_count(pattern@, haystack@),
{
    regex::Regex::new(pattern).unwrap().find_iter(haystack).count()
}

/// Compiles `pattern` and calls `Regex::replace_all(haystack, replacement)`.
/// Claimed: the text is `regex_replaced` of the three arguments. How `$` in
/// the replacement is expanded is part of what the name stands for.
#[verifier::external_body]
pub(crate) fn regex_replace_all(pattern: &str, haystack: &str, replacement: &str) -> (r: String)
    requires
        regex_valid(pattern@),
    ensures
        r@ == regex_replaced(pattern@, haystack@, replacement@),
{
    regex::Regex::new(pattern).unwrap().replace_all(haystack, replacement).into_owned()
}

/// Compiles `pattern`, calls `Regex::captures(haystack)` and takes group 1.
/// Claimed: the result is `regex_first_group` of pattern and haystack.
#[verifier::external_body]
pub(crate) fn regex_capture_group1(pattern: &str, haystack: &str) -> (r: Option<String>)
    requires
        regex_valid(pattern@),
    ensures
        match r {
            Some(g) => regex_first_group(pattern@, haystack@) == Some(g@),
            None => regex_first_group(pattern@, haystack@) is None,
        },
{
    match regex::Regex::new(pattern).unwrap().captures(haystack) {
        Some(caps) => match caps.get(1) {
            Some(m) => Some(m.as_str().to_string()),
            None => None,
        },
        None => None,
    }
}

/// The characters that `regex_syntax::is_meta_character` escapes.
pub open spec fn is_regex_meta(c: char) -> bool {
    ||| c == '\\' || c == '.' || c == '+' || c == '*' || c == '?' || c == '('
    ||| c == ')' || c == '|' || c == '[' || c == ']' || c == '{' || c == '}'
    ||| c == '^' || c == '$' || c == '#' || c == '&' || c == '-' || c == '~'
}

/// `s` with a backslash put before each regex meta character.
pub open spec fn regex_escaped(s: Seq<char>) -> Seq<char>
    decreases s.len(),
{
    if s.len() == 0 {
        seq![]
    } else {
        (if is_regex_meta(s[0]) {
            seq!['\\', s[0]]
        } else {
            seq![s[0]]
        }) + regex_escaped(s.drop_first())
    }
}

/// Calls `regex::escape`. Claimed, as its source shows: each meta character
/// of `s` gets a backslash in front, all else is copied.
#[verifier::external_body]
pub(crate) fn regex_escape(s: &str) -> (r: String)
    ensures
        r@ == regex_escaped(s@),
{
    regex::escape(s)
}

// ---------------------------------------------------------------------
// dirs
// ---------------------------------------------------------------------

/// Calls `dirs::home_dir` and turns the path into text as
/// `to_string_lossy` does. The answer depends on the environment; claimed
/// only that a home directory, when there is one, is not empty.
#[verifier::external_body]
pub(crate) fn home_dir() -> (h: Option<String>)
    ensures
        h matches Some(s) ==> s@.len() > 0,
{
    match dirs::home_dir() {
        Some(p) => Some(p.to_string_lossy().into_owned()),
        None => None,
    }
}

// ---------------------------------------------------------------------
// sha2 and hex
// ---------------------------------------------------------------------

/// The SHA-256 digest of `data`.
pub uninterp spec fn sha256_digest(data: Seq<u8>) -> Seq<u8>;

/// Calls `sha2::Sha256::digest`. Claimed: the bytes are the digest of
/// `data`, 32 of them.
#[verifier::external_body]
pub(crate) fn sha256(data: &[u8]) -> (d: Vec<u8>)
    ensures
        d@ == sha256_digest(data@),
        d@.len() == 32,
{
    sha2::Sha256::digest(data).to_vec()
}

/// The lower-case hexadecimal digit of `d` (below 16).
pub open spec fn hex_digit(d: nat) -> char {
    if d < 10 {
        ((d + 48) as u8) as char
    } else {
        ((d + 87) as u8) as char
    }
}

/// Two lower-case hexadecimal digits per byte, high digit first.
pub open spec fn hex_lower(data: Seq<u8>) -> Seq<char>
    decreases data.len(),
{
    if data.len() == 0 {
        seq![]
    } else {
        seq![hex_digit((data[0] / 16) as nat), hex_digit((data[0] % 16) as nat)] + hex_lower(
            data.drop_first(),
        )
    }
}

/// Calls `hex::encode`. Claimed, as its documentation and source show:
/// each byte becomes two lower-case hexadecimal digits, in order.
#[verifier::external_body]
pub(crate) fn hex_encode(data: &[u8]) -> (s: String)
    ensures
        s@ == hex_lower(data@),
{
    hex::encode(data)
}

} // verus!
