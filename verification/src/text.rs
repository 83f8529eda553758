//! Character-level text utilities with specifications that follow the
//! standard library's string operations (`trim`, `split_whitespace`,
//! `lines`, prefix and substring tests, decimal formatting).

use vstd::prelude::*;

verus! {

/// Appending a character to a `String` appends it to the character view.
pub assume_specification[ String::push ](s: &mut String, ch: char)
    ensures
        final(s)@ == old(s)@.push(ch),
;

// ---------------------------------------------------------------------
// Conversions between strings and character vectors
// ---------------------------------------------------------------------

/// The characters of a string slice, in order.
pub fn chars_of(s: &str) -> (v: Vec<char>)
    ensures
        v@ == s@,
{
    broadcast use vstd::string::group_string_axioms;

    let mut v: Vec<char> = Vec::new();
    for c in it: s.chars()
        invariant
            v@ == it.seq().take(it.index() as int),
            it.seq() == s@,
    {
        v.push(c);
    }
    v
}

/// Appends the characters of `chars` to `out`.
pub fn push_chars(out: &mut String, chars: &[char])
    ensures
        final(out)@ == old(out)@ + chars@,
{
    let n = chars.len();
    let mut i: usize = 0;
    while i < n
        invariant
            n == chars@.len(),
            0 <= i <= n,
            out@ == old(out)@ + chars@.take(i as int),
        decreases n - i,
    {
        proof {
            assert(chars@.take(i + 1) =~= chars@.take(i as int).push(chars@[i as int]));
        }
        out.push(chars[i]);
        i = i + 1;
    }
    proof {
        assert(chars@.take(n as int) =~= chars@);
    }
}

/// Appends the characters of a string slice to `out`.
pub fn push_str(out: &mut String, s: &str)
    ensures
        final(out)@ == old(out)@ + s@,
{
    let v = chars_of(s);
    push_chars(out, v.as_slice());
}

/// A string holding exactly the given characters.
pub fn string_of(chars: &[char]) -> (s: String)
    ensures
        s@ == chars@,
{
    let mut s = String::new();
    push_chars(&mut s, chars);
    proof {
        assert(Seq::<char>::empty() + chars@ =~= chars@);
    }
    s
}

/// The characters `s[from..to]`, copied.
pub fn copy_range(s: &[char], from: usize, to: usize) -> (r: Vec<char>)
    requires
        from <= to <= s@.len(),
    ensures
        r@ == s@.subrange(from as int, to as int),
{
    let mut r: Vec<char> = Vec::new();
    let mut i: usize = from;
    while i < to
        invariant
            from <= i <= to <= s@.len(),
            r@ == s@.subrange(from as int, i as int),
        decreases to - i,
    {
        r.push(s[i]);
        i = i + 1;
        proof {
            assert(r@ =~= s@.subrange(from as int, i as int));
        }
    }
    r
}

/// Whether two character slices hold the same characters.
pub fn chars_eq(a: &[char], b: &[char]) -> (eq: bool)
    ensures
        eq == (a@ == b@),
{
    if a.len() != b.len() {
        return false;
    }
    let n = a.len();
    let mut i: usize = 0;
    while i < n
        invariant
            n == a@.len() == b@.len(),
            0 <= i <= n,
            forall|k: int| 0 <= k < i ==> a@[k] == b@[k],
        decreases n - i,
    {
        if a[i] != b[i] {
            return false;
        }
        i = i + 1;
    }
    proof {
        assert(a@ =~= b@);
    }
    true
}

/// The length in bytes of the UTF-8 encoding of `s` (`str::len`).
pub open spec fn byte_len(s: Seq<char>) -> nat {
    vstd::utf8::encode_utf8(s).len()
}

// ---------------------------------------------------------------------
// Whitespace and trimming
// ---------------------------------------------------------------------

/// Unicode `White_Space`, the property behind `char::is_whitespace`.
pub open spec fn is_ws(c: char) -> bool {
    ||| ('\u{9}' <= c && c <= '\u{d}')
    ||| c == ' '
    ||| c == '\u{85}'
    ||| c == '\u{a0}'
    ||| c == '\u{1680}'
    ||| ('\u{2000}' <= c && c <= '\u{200a}')
    ||| c == '\u{2028}'
    ||| c == '\u{2029}'
    ||| c == '\u{202f}'
    ||| c == '\u{205f}'
    ||| c == '\u{3000}'
}

/// Whether `c` is white space in the sense of `char::is_whitespace`.
pub fn is_whitespace(c: char) -> (b: bool)
    ensures
        b == is_ws(c),
{
    ('\u{9}' <= c && c <= '\u{d}') || c == ' ' || c == '\u{85}' || c == '\u{a0}' || c
        == '\u{1680}' || ('\u{2000}' <= c && c <= '\u{200a}') || c == '\u{2028}' || c
        == '\u{2029}' || c == '\u{202f}' || c == '\u{205f}' || c == '\u{3000}'
}

/// `s` without its leading white space.
pub open spec fn trim_start(s: Seq<char>) -> Seq<char>
    decreases s.len(),
{
    if s.len() > 0 && is_ws(s[0]) {
        trim_start(s.drop_first())
    } else {
        s
    }
}

/// `s` without its trailing white space.
pub open spec fn trim_end(s: Seq<char>) -> Seq<char>
    decreases s.len(),
{
    if s.len() > 0 && is_ws(s.last()) {
        trim_end(s.drop_last())
    } else {
        s
    }
}

/// `s` without leading and trailing white space, as `str::trim` gives it.
pub open spec fn trim(s: Seq<char>) -> Seq<char> {
    trim_end(trim_start(s))
}

/// Dropping `i` leading white-space characters, where the next one is not
/// white space, is what `trim_start` does.
pub proof fn lemma_trim_start_at(s: Seq<char>, i: int)
    requires
        0 <= i <= s.len(),
        forall|k: int| 0 <= k < i ==> is_ws(#[trigger] s[k]),
        i == s.len() || !is_ws(s[i]),
    ensures
        trim_start(s) == s.skip(i),
    decreases i,
{
    if i > 0 {
        assert forall|k: int| 0 <= k < i - 1 implies is_ws(#[trigger] s.drop_first()[k]) by {
            assert(s.drop_first()[k] == s[k + 1]);
        }
        lemma_trim_start_at(s.drop_first(), i - 1);
        assert(s.drop_first().skip(i - 1) =~= s.skip(i));
    } else {
        assert(s.skip(0) =~= s);
    }
}

/// Keeping the first `j` characters, where all later ones are white space
/// and the `j`-th is not, is what `trim_end` does.
pub proof fn lemma_trim_end_at(s: Seq<char>, j: int)
    requires
        0 <= j <= s.len(),
        forall|k: int| j <= k < s.len() ==> is_ws(#[trigger] s[k]),
        j == 0 || !is_ws(s[j - 1]),
    ensures
        trim_end(s) == s.take(j),
    decreases s.len() - j,
{
    if j < s.len() {
        assert forall|k: int| j <= k < s.drop_last().len() implies is_ws(
            #[trigger] s.drop_last()[k],
        ) by {
            assert(s.drop_last()[k] == s[k]);
        }
        lemma_trim_end_at(s.drop_last(), j);
        assert(s.drop_last().take(j) =~= s.take(j));
    } else {
        assert(s.take(j) =~= s);
    }
}

/// The characters of `s` without leading and trailing white space.
pub fn trim_chars(s: &[char]) -> (r: Vec<char>)
    ensures
        r@ == trim(s@),
{
    let n = s.len();
    let mut i: usize = 0;
    while i < n && is_whitespace(s[i])
        invariant
            n == s@.len(),
            0 <= i <= n,
            forall|k: int| 0 <= k < i ==> is_ws(#[trigger] s@[k]),
        decreases n - i,
    {
        i = i + 1;
    }
    proof {
        lemma_trim_start_at(s@, i as int);
    }
    let mut j: usize = n;
    while j > i && is_whitespace(s[j - 1])
        invariant
            n == s@.len(),
            0 <= i <= j <= n,
            forall|k: int| j <= k < n ==> is_ws(#[trigger] s@[k]),
        decreases j,
    {
        j = j - 1;
    }
    let r = copy_range(s, i, j);
    proof {
        let t = s@.skip(i as int);
        assert forall|k: int| j - i <= k < t.len() implies is_ws(#[trigger] t[k]) by {
            assert(t[k] == s@[k + i]);
        }
        if j - i > 0 {
            assert(t[j - i - 1] == s@[j - 1]);
        }
        lemma_trim_end_at(t, j - i);
        assert(t.take(j - i) =~= s@.subrange(i as int, j as int));
    }
    r
}


// ---------------------------------------------------------------------
// Splitting on white space
// ---------------------------------------------------------------------

/// The number of leading characters of `s` that are not white space.
pub open spec fn word_len(s: Seq<char>) -> nat
    decreases s.len(),
{
    if s.len() > 0 && !is_ws(s[0]) {
        1 + word_len(s.drop_first())
    } else {
        0
    }
}

/// A word never runs past the end of the text.
pub proof fn lemma_word_len_bound(s: Seq<char>)
    ensures
        word_len(s) <= s.len(),
        s.len() > 0 && !is_ws(s[0]) ==> word_len(s) >= 1,
    decreases s.len(),
{
    if s.len() > 0 && !is_ws(s[0]) {
        lemma_word_len_bound(s.drop_first());
    }
}

/// The maximal runs of non-white-space characters of `s`, in order, as
/// `str::split_whitespace` yields them.
pub open spec fn tokens(s: Seq<char>) -> Seq<Seq<char>>
    decreases s.len(),
{
    if s.len() == 0 {
        seq![]
    } else if is_ws(s[0]) {
        tokens(s.drop_first())
    } else {
        let n = word_len(s);
        proof {
            lemma_word_len_bound(s);
        }
        seq![s.take(n as int)] + tokens(s.skip(n as int))
    }
}

/// The character views of a vector of character vectors.
pub open spec fn views(v: Seq<Vec<char>>) -> Seq<Seq<char>> {
    v.map_values(|w: Vec<char>| w@)
}

/// A word that starts at `i` and ends at `j` has length `j - i`.
pub proof fn lemma_word_len_at(s: Seq<char>, i: int, j: int)
    requires
        0 <= i <= j <= s.len(),
        forall|k: int| i <= k < j ==> !is_ws(#[trigger] s[k]),
        j == s.len() || is_ws(s[j]),
    ensures
        word_len(s.skip(i)) == j - i,
    decreases j - i,
{
    if i < j {
        lemma_word_len_at(s, i + 1, j);
        assert(s.skip(i).drop_first() =~= s.skip(i + 1));
    }
}

/// The white-space separated words of `s`, as `str::split_whitespace`.
pub fn split_whitespace(s: &[char]) -> (words: Vec<Vec<char>>)
    ensures
        views(words@) == tokens(s@),
{
    let n = s.len();
    let mut words: Vec<Vec<char>> = Vec::new();
    let mut i: usize = 0;
    proof {
        assert(s@.skip(0) =~= s@);
        assert(views(words@) + tokens(s@) =~= tokens(s@));
    }
    while i < n
        invariant
            n == s@.len(),
            0 <= i <= n,
            tokens(s@) == views(words@) + tokens(s@.skip(i as int)),
        decreases n - i,
    {
        if is_whitespace(s[i]) {
            proof {
                assert(s@.skip(i as int).drop_first() =~= s@.skip(i + 1));
            }
            i = i + 1;
        } else {
            let mut j: usize = i;
            while j < n && !is_whitespace(s[j])
                invariant
                    n == s@.len(),
                    i <= j <= n,
                    forall|k: int| i <= k < j ==> !is_ws(#[trigger] s@[k]),
                decreases n - j,
            {
                j = j + 1;
            }
            let w = copy_range(s, i, j);
            proof {
                lemma_word_len_at(s@, i as int, j as int);
                let t = s@.skip(i as int);
                assert(t.take(j - i) =~= s@.subrange(i as int, j as int));
                assert(t.skip(j - i) =~= s@.skip(j as int));
                assert(tokens(t) == seq![t.take(j - i)] + tokens(t.skip(j - i)));
            }
            let ghost before = words@;
            words.push(w);
            proof {
                assert(views(words@) =~= views(before) + seq![w@]);
                assert(views(words@) + tokens(s@.skip(j as int)) =~= views(before) + (seq![w@]
                    + tokens(s@.skip(j as int))));
            }
            i = j;
        }
    }
    proof {
        assert(s@.skip(n as int) =~= Seq::<char>::empty());
        assert(views(words@) + Seq::<Seq<char>>::empty() =~= views(words@));
    }
    words
}

// ---------------------------------------------------------------------
// Prefixes, suffixes, characters and substrings
// ---------------------------------------------------------------------

/// Whether `s` begins with `prefix` (`str::starts_with`).
pub fn starts_with(s: &[char], prefix: &[char]) -> (b: bool)
    ensures
        b == prefix@.is_prefix_of(s@),
{
    if prefix.len() > s.len() {
        return false;
    }
    let head = copy_range(s, 0, prefix.len());
    chars_eq(head.as_slice(), prefix)
}

/// Whether `s` ends with `suffix` (`str::ends_with`).
pub fn ends_with(s: &[char], suffix: &[char]) -> (b: bool)
    ensures
        b == suffix@.is_suffix_of(s@),
{
    if suffix.len() > s.len() {
        return false;
    }
    let tail = copy_range(s, s.len() - suffix.len(), s.len());
    chars_eq(tail.as_slice(), suffix)
}

/// Whether the character `c` occurs in `s`.
pub fn contains_char(s: &[char], c: char) -> (b: bool)
    ensures
        b == s@.contains(c),
{
    let n = s.len();
    let mut i: usize = 0;
    while i < n
        invariant
            n == s@.len(),
            0 <= i <= n,
            forall|k: int| 0 <= k < i ==> s@[k] != c,
        decreases n - i,
    {
        if s[i] == c {
            proof {
                assert(s@[i as int] == c);
            }
            return true;
        }
        i = i + 1;
    }
    false
}

/// The index of the first occurrence of `c` in `s`, or the length of `s`
/// when it does not occur.
pub open spec fn char_index(s: Seq<char>, c: char) -> nat
    decreases s.len(),
{
    if s.len() == 0 {
        0
    } else if s[0] == c {
        0
    } else {
        1 + char_index(s.drop_first(), c)
    }
}

/// `char_index` is the first occurrence, or the length.
pub proof fn lemma_char_index(s: Seq<char>, c: char)
    ensures
        char_index(s, c) <= s.len(),
        forall|k: int| 0 <= k < char_index(s, c) ==> s[k] != c,
        char_index(s, c) < s.len() ==> s[char_index(s, c) as int] == c,
    decreases s.len(),
{
    if s.len() > 0 && s[0] != c {
        lemma_char_index(s.drop_first(), c);
        assert forall|k: int| 0 <= k < char_index(s, c) implies s[k] != c by {
            if k > 0 {
                assert(s[k] == s.drop_first()[k - 1]);
            }
        }
    }
}

/// A position that only non-`c` characters precede, and that is `c` or the
/// end, is `char_index`.
pub proof fn lemma_char_index_at(s: Seq<char>, c: char, i: int)
    requires
        0 <= i <= s.len(),
        forall|k: int| 0 <= k < i ==> s[k] != c,
        i == s.len() || s[i] == c,
    ensures
        char_index(s, c) == i,
    decreases i,
{
    if i > 0 {
        lemma_char_index_at(s.drop_first(), c, i - 1);
    }
}

/// The part of `s` before the first `c` (all of `s` when there is none): the
/// first item that `str::split(c)` yields.
pub open spec fn before_char(s: Seq<char>, c: char) -> Seq<char> {
    s.take(char_index(s, c) as int)
}

/// The part of `s` before the first occurrence of `c`.
pub fn take_before(s: &[char], c: char) -> (r: Vec<char>)
    ensures
        r@ == before_char(s@, c),
{
    let n = s.len();
    let mut i: usize = 0;
    while i < n && s[i] != c
        invariant
            n == s@.len(),
            0 <= i <= n,
            forall|k: int| 0 <= k < i ==> s@[k] != c,
        decreases n - i,
    {
        i = i + 1;
    }
    proof {
        lemma_char_index_at(s@, c, i as int);
    }
    copy_range(s, 0, i)
}

/// Whether `needle` occurs in `s` as a contiguous run (`str::contains`).
pub open spec fn has_substring(s: Seq<char>, needle: Seq<char>) -> bool {
    exists|i: int| 0 <= i && i + needle.len() <= s.len() && #[trigger] s.subrange(i, i + needle.len()) == needle
}

/// Whether `needle` occurs in `s`.
pub fn contains_substring(s: &[char], needle: &[char]) -> (b: bool)
    ensures
        b == has_substring(s@, needle@),
{
    let n = s.len();
    let m = needle.len();
    if m > n {
        proof {
            assert forall|i: int| 0 <= i && i + m <= n implies #[trigger] s@.subrange(i, i + m) != needle@ by {}
        }
        return false;
    }
    if m == 0 {
        proof {
            assert(s@.subrange(0int, 0int + needle@.len()) =~= needle@);
        }
        return true;
    }
    let mut i: usize = 0;
    while i <= n - m
        invariant
            n == s@.len(),
            m == needle@.len(),
            1 <= m <= n,
            0 <= i <= n - m + 1,
            forall|k: int| 0 <= k < i ==> #[trigger] s@.subrange(k, k + m) != needle@,
        decreases n - m + 1 - i,
    {
        let piece = copy_range(s, i, i + m);
        if chars_eq(piece.as_slice(), needle) {
            return true;
        }
        i = i + 1;
    }
    proof {
        assert forall|k: int| 0 <= k && k + m <= n implies #[trigger] s@.subrange(k, k + m) != needle@ by {
            assert(k < i);
        }
    }
    false
}


// ---------------------------------------------------------------------
// Lines
// ---------------------------------------------------------------------

/// A line without the carriage return that ends it, if any.
pub open spec fn strip_cr(l: Seq<char>) -> Seq<char> {
    if l.len() > 0 && l.last() == '\r' {
        l.drop_last()
    } else {
        l
    }
}

/// The lines of `s`, as `str::lines` yields them: split after each `\n`,
/// with the `\n` and a `\r` just before it removed; a final line end is
/// optional and yields no empty line.
pub open spec fn lines(s: Seq<char>) -> Seq<Seq<char>>
    decreases s.len(),
{
    if s.len() == 0 {
        seq![]
    } else {
        let k = char_index(s, '\n');
        proof {
            lemma_char_index(s, '\n');
        }
        if k < s.len() {
            seq![strip_cr(s.take(k as int))] + lines(s.skip(k + 1int))
        } else {
            seq![s]
        }
    }
}

/// `line` without a trailing carriage return.
pub fn strip_trailing_cr(line: Vec<char>) -> (r: Vec<char>)
    ensures
        r@ == strip_cr(line@),
{
    let mut line = line;
    let ghost original = line@;
    if line.len() > 0 && line[line.len() - 1] == '\r' {
        line.pop();
        proof {
            assert(line@ =~= original.drop_last());
        }
    }
    line
}

/// The lines of `s`, as `str::lines`.
pub fn split_lines(s: &[char]) -> (out: Vec<Vec<char>>)
    ensures
        views(out@) == lines(s@),
{
    let n = s.len();
    let mut out: Vec<Vec<char>> = Vec::new();
    let mut i: usize = 0;
    proof {
        assert(s@.skip(0) =~= s@);
        assert(views(out@) + lines(s@) =~= lines(s@));
    }
    while i < n
        invariant
            n == s@.len(),
            0 <= i <= n,
            lines(s@) == views(out@) + lines(s@.skip(i as int)),
        decreases n - i,
    {
        let mut j: usize = i;
        while j < n && s[j] != '\n'
            invariant
                n == s@.len(),
                i <= j <= n,
                forall|k: int| i <= k < j ==> s@[k] != '\n',
            decreases n - j,
        {
            j = j + 1;
        }
        let t = Ghost(s@.skip(i as int));
        proof {
            assert forall|k: int| 0 <= k < j - i implies t@[k] != '\n' by {
                assert(t@[k] == s@[k + i]);
            }
            if j < n {
                assert(t@[j - i] == s@[j as int]);
            }
            lemma_char_index_at(t@, '\n', j - i);
            assert(t@.take(j - i) =~= s@.subrange(i as int, j as int));
        }
        let piece = copy_range(s, i, j);
        let ghost before = out@;
        if j < n {
            let line = strip_trailing_cr(piece);
            out.push(line);
            proof {
                assert(t@.skip(j - i + 1) =~= s@.skip(j + 1));
                assert(views(out@) =~= views(before) + seq![line@]);
                assert(views(out@) + lines(s@.skip(j + 1)) =~= views(before) + (seq![line@]
                    + lines(s@.skip(j + 1))));
            }
            i = j + 1;
        } else {
            out.push(piece);
            proof {
                assert(t@ =~= s@.subrange(i as int, j as int));
                assert(s@.skip(n as int) =~= Seq::<char>::empty());
                assert(views(out@) =~= views(before) + seq![piece@]);
                assert(views(out@) + lines(s@.skip(n as int)) =~= views(out@));
            }
            i = n;
        }
    }
    proof {
        assert(s@.skip(n as int) =~= Seq::<char>::empty());
        assert(views(out@) + Seq::<Seq<char>>::empty() =~= views(out@));
    }
    out
}

// ---------------------------------------------------------------------
// Decimal numerals
// ---------------------------------------------------------------------

/// The character of the decimal digit `d`.
pub open spec fn digit_char(d: nat) -> char {
    ((d + 48) as u8) as char
}

/// The decimal numeral of `n`, without leading zeros.
pub open spec fn decimal(n: nat) -> Seq<char>
    decreases n,
{
    if n < 10 {
        seq![digit_char(n)]
    } else {
        decimal(n / 10).push(digit_char(n % 10))
    }
}

/// Appends the decimal numeral of `n` to `out`.
pub fn push_decimal(out: &mut String, n: u64)
    ensures
        final(out)@ == old(out)@ + decimal(n as nat),
    decreases n,
{
    if n >= 10 {
        push_decimal(out, n / 10);
    }
    let d: u8 = (n % 10) as u8;
    let c: char = (d + 48u8) as char;
    out.push(c);
    proof {
        if n >= 10 {
            assert(decimal(n as nat) == decimal((n / 10) as nat).push(digit_char((n % 10) as nat)));
        }
    }
}

} // verus!
