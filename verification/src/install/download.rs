//! Installer sources: what a `dig` source string names, and the hash that
//! identifies an installer's content.

use vstd::prelude::*;

use crate::foreign::{hex_encode, hex_lower, sha256, sha256_digest};
use crate::text::{
    before_char, chars_of, contains_char, ends_with, push_str, split_whitespace, starts_with,
    string_of, take_before, tokens, trim, trim_chars, views,
};

verus! {

/// Where an installer comes from.
#[derive(Debug, Clone)]
pub enum SourceInfo {
    /// A script fetched over HTTP(S): its URL and the whole source text.
    RemoteScript { url: String, original: String },
    /// A script on the local file system.
    LocalScript { path: String },
    /// A program already on the `PATH`, named.
    Package { name: String },
}

/// The abstract content of a [`SourceInfo`].
pub enum SourceSpec {
    RemoteScript { url: Seq<char>, original: Seq<char> },
    LocalScript { path: Seq<char> },
    Package { name: Seq<char> },
}

impl View for SourceInfo {
    type V = SourceSpec;

    open spec fn view(&self) -> SourceSpec {
        match self {
            SourceInfo::RemoteScript { url, original } => SourceSpec::RemoteScript {
                url: url@,
                original: original@,
            },
            SourceInfo::LocalScript { path } => SourceSpec::LocalScript { path: path@ },
            SourceInfo::Package { name } => SourceSpec::Package { name: name@ },
        }
    }
}

/// Whether a token is an HTTP or HTTPS URL.
pub open spec fn is_url(token: Seq<char>) -> bool {
    "http://"@.is_prefix_of(token) || "https://"@.is_prefix_of(token)
}

/// The first URL among `tokens`.
pub open spec fn first_url(tokens: Seq<Seq<char>>) -> Option<Seq<char>>
    decreases tokens.len(),
{
    if tokens.len() == 0 {
        None
    } else if is_url(tokens[0]) {
        Some(tokens[0])
    } else {
        first_url(tokens.drop_first())
    }
}

/// The URL that a piped command such as `curl -fsSL URL | bash` fetches:
/// the first URL among the words of the command before the first `|`.
pub open spec fn piped_url(cmd: Seq<char>) -> Option<Seq<char>> {
    first_url(tokens(trim(before_char(cmd, '|'))))
}

/// How a source string is classified.
pub open spec fn classify_source(source: Seq<char>) -> SourceSpec {
    let t = trim(source);
    if t.contains('|') && piped_url(t) is Some {
        SourceSpec::RemoteScript { url: piped_url(t).unwrap(), original: t }
    } else if is_url(t) {
        SourceSpec::RemoteScript { url: t, original: t }
    } else if "./"@.is_prefix_of(t) || "/"@.is_prefix_of(t) || ".sh"@.is_suffix_of(t) {
        SourceSpec::LocalScript { path: t }
    } else {
        SourceSpec::Package { name: t }
    }
}

/// `first_url` is the URL at the first position holding one.
pub proof fn lemma_first_url_at(ts: Seq<Seq<char>>, j: int)
    requires
        0 <= j <= ts.len(),
        forall|k: int| 0 <= k < j ==> !is_url(#[trigger] ts[k]),
        j < ts.len() ==> is_url(ts[j]),
    ensures
        first_url(ts) == (if j < ts.len() {
            Some(ts[j])
        } else {
            None::<Seq<char>>
        }),
    decreases j,
{
    if j > 0 {
        assert forall|k: int| 0 <= k < j - 1 implies !is_url(#[trigger] ts.drop_first()[k]) by {
            assert(ts.drop_first()[k] == ts[k + 1]);
        }
        lemma_first_url_at(ts.drop_first(), j - 1);
    }
}

/// Law: a source that, trimmed, starts with `http://` or `https://` is a
/// remote script keeping the trimmed text, fetched from an HTTP(S) URL;
/// without a `|` the URL is that whole text. A trimmed source without a `|`
/// and without either prefix is a local script when it starts with `./` or
/// `/` or ends with `.sh`, and a package named by it otherwise.
pub proof fn lemma_source_kinds(source: Seq<char>)
    ensures
        ({
            let t = trim(source);
            let web = "http://"@.is_prefix_of(t) || "https://"@.is_prefix_of(t);
            let local = "./"@.is_prefix_of(t) || "/"@.is_prefix_of(t) || ".sh"@.is_suffix_of(t);
            &&& web ==> (classify_source(source) matches SourceSpec::RemoteScript { url, original }
                && original == t && ("http://"@.is_prefix_of(url) || "https://"@.is_prefix_of(url)))
            &&& web && !t.contains('|') ==> classify_source(source) == (SourceSpec::RemoteScript {
                url: t,
                original: t,
            })
            &&& !web && !t.contains('|') && local ==> classify_source(source) == (SourceSpec::LocalScript {
                path: t,
            })
            &&& !web && !t.contains('|') && !local ==> classify_source(source) == (SourceSpec::Package {
                name: t,
            })
        }),
{
    lemma_first_url_is_url(tokens(trim(before_char(trim(source), '|'))));
}

/// `first_url` finds only URLs.
proof fn lemma_first_url_is_url(ts: Seq<Seq<char>>)
    ensures
        first_url(ts) matches Some(u) ==> is_url(u),
    decreases ts.len(),
{
    if ts.len() > 0 && !is_url(ts[0]) {
        lemma_first_url_is_url(ts.drop_first());
    }
}

/// Law: a source classified as a remote script names an HTTP or HTTPS URL,
/// and every classification keeps the trimmed source text.
pub proof fn lemma_classified_source(source: Seq<char>)
    ensures
        classify_source(source) matches SourceSpec::RemoteScript { url, original } ==> is_url(url)
            && original == trim(source),
        classify_source(source) matches SourceSpec::LocalScript { path } ==> path == trim(source),
        classify_source(source) matches SourceSpec::Package { name } ==> name == trim(source),
{
    lemma_first_url_is_url(tokens(trim(before_char(trim(source), '|'))));
}

/// Whether `token` is an HTTP or HTTPS URL.
fn is_url_token(token: &[char]) -> (b: bool)
    ensures
        b == is_url(token@),
{
    let http = chars_of("http://");
    let https = chars_of("https://");
    starts_with(token, http.as_slice()) || starts_with(token, https.as_slice())
}

/// The `curl` flags after which the URL is looked for first.
pub open spec fn fetch_flags() -> Seq<Seq<char>> {
    seq!["-fsSL"@, "-sSL"@, "-fsL"@, "-sL"@, "-L"@]
}

/// Whether `token` is one of the `curl` flags that precede the URL.
fn is_fetch_flag(token: &[char]) -> (b: bool)
    ensures
        b == fetch_flags().contains(token@),
{
    let flags = ["-fsSL", "-sSL", "-fsL", "-sL", "-L"];
    proof {
        assert(flags@.map_values(|f: &str| f@) =~= fetch_flags());
    }
    let mut i: usize = 0;
    while i < 5
        invariant
            0 <= i <= 5,
            flags@.map_values(|f: &str| f@) == fetch_flags(),
            forall|j: int| 0 <= j < i ==> fetch_flags()[j] != token@,
        decreases 5 - i,
    {
        let flag = chars_of(flags[i]);
        proof {
            assert(flags@.map_values(|f: &str| f@)[i as int] == flags@[i as int]@);
        }
        if crate::text::chars_eq(token, flag.as_slice()) {
            return true;
        }
        i = i + 1;
    }
    false
}

/// The URL that a piped install command fetches, if it names one.
pub fn extract_url_from_pipe(cmd: &str) -> (url: Option<String>)
    ensures
        match url {
            Some(u) => piped_url(cmd@) == Some(u@),
            None => piped_url(cmd@) is None,
        },
{
    let chars = chars_of(cmd);
    let first = take_before(chars.as_slice(), '|');
    let fetch_cmd = trim_chars(first.as_slice());
    let words = split_whitespace(fetch_cmd.as_slice());
    let ghost ts = tokens(trim(before_char(cmd@, '|')));
    proof {
        assert(views(words@) == ts);
        assert forall|k: int| 0 <= k < words@.len() implies #[trigger] words@[k]@ == ts[k] by {
            assert(views(words@)[k] == words@[k]@);
        }
    }
    let n = words.len();
    let mut i: usize = 0;
    while i < n
        invariant
            n == words@.len() == ts.len(),
            ts == tokens(trim(before_char(cmd@, '|'))),
            forall|k: int| 0 <= k < n ==> #[trigger] words@[k]@ == ts[k],
            0 <= i <= n,
            forall|k: int| 0 <= k < i ==> !is_url(#[trigger] ts[k]),
        decreases n - i,
    {
        if is_url_token(words[i].as_slice()) {
            proof {
                lemma_first_url_at(ts, i as int);
            }
            return Some(string_of(words[i].as_slice()));
        }
        if is_fetch_flag(words[i].as_slice()) && i + 1 < n {
            if is_url_token(words[i + 1].as_slice()) {
                proof {
                    lemma_first_url_at(ts, i + 1);
                }
                return Some(string_of(words[i + 1].as_slice()));
            }
        }
        i = i + 1;
    }
    let mut j: usize = 0;
    while j < n
        invariant
            n == words@.len() == ts.len(),
            ts == tokens(trim(before_char(cmd@, '|'))),
            forall|k: int| 0 <= k < n ==> #[trigger] words@[k]@ == ts[k],
            forall|k: int| 0 <= k < n ==> !is_url(#[trigger] ts[k]),
            0 <= j <= n,
        decreases n - j,
    {
        if is_url_token(words[j].as_slice()) {
            proof {
                lemma_first_url_at(ts, j as int);
            }
            return Some(string_of(words[j].as_slice()));
        }
        j = j + 1;
    }
    proof {
        lemma_first_url_at(ts, n as int);
    }
    None
}

/// Classifies an installer source: a piped fetch command or a URL is a
/// remote script, a path or a `.sh` file a local script, anything else a
/// package name. Leading and trailing white space is ignored.
pub fn parse_source(source: &str) -> (info: SourceInfo)
    ensures
        info@ == classify_source(source@),
{
    let chars = chars_of(source);
    let t = trim_chars(chars.as_slice());
    let trimmed = string_of(t.as_slice());
    if contains_char(t.as_slice(), '|') {
        if let Some(url) = extract_url_from_pipe(trimmed.as_str()) {
            return SourceInfo::RemoteScript { url, original: trimmed };
        }
    }
    let http = chars_of("http://");
    let https = chars_of("https://");
    if starts_with(t.as_slice(), http.as_slice()) || starts_with(t.as_slice(), https.as_slice()) {
        let url = string_of(t.as_slice());
        return SourceInfo::RemoteScript { url, original: trimmed };
    }
    let dot_slash = chars_of("./");
    let slash = chars_of("/");
    let dot_sh = chars_of(".sh");
    if starts_with(t.as_slice(), dot_slash.as_slice()) || starts_with(t.as_slice(), slash.as_slice())
        || ends_with(t.as_slice(), dot_sh.as_slice()) {
        return SourceInfo::LocalScript { path: trimmed };
    }
    SourceInfo::Package { name: trimmed }
}

/// How an installer's content is identified: `sha256:` and the lower-case
/// hexadecimal SHA-256 digest of the bytes.
pub open spec fn spec_installer_hash(content: Seq<u8>) -> Seq<char> {
    "sha256:"@ + hex_lower(sha256_digest(content))
}

/// The identifying hash of an installer's content.
pub fn installer_hash(content: &[u8]) -> (h: String)
    ensures
        h@ == spec_installer_hash(content@),
{
    let digest = sha256(content);
    let hex = hex_encode(digest.as_slice());
    let mut h = String::new();
    push_str(&mut h, "sha256:");
    push_str(&mut h, hex.as_str());
    proof {
        assert(Seq::<char>::empty() + "sha256:"@ =~= "sha256:"@);
    }
    h
}

} // verus!
