//! Rewriting an installer script so that the locations it would install
//! into point inside the instance, and showing what the rewrite changed.

use vstd::prelude::*;

use crate::foreign::{
    documented_to_compile, escaped_literal_limit, fixed_patterns, has_dot_dot_separator, home_dir,
    is_escaped_literal_pattern, literal_suffixes, regex_compiles, regex_count_matches, regex_escape, regex_escaped, regex_is_match,
    regex_match_count, regex_matches, regex_replace_all, regex_replaced, regex_valid,
};
use crate::path::{lemma_slash_name_within, within};
use crate::text::{
    chars_of, contains_substring, decimal, has_substring, lines, push_chars, push_decimal,
    push_str, split_lines, string_of, views,
};

verus! {

/// A rule as plain values: regex pattern, replacement, description.
pub type RuleSpec = (Seq<char>, Seq<char>, Seq<char>);

/// One rewrite rule: every match of `pattern` becomes `replacement`.
pub struct RewriteRule {
    pattern: String,
    replacement: String,
    description: String,
}

impl View for RewriteRule {
    type V = RuleSpec;

    closed spec fn view(&self) -> RuleSpec {
        (self.pattern@, self.replacement@, self.description@)
    }
}

/// Rewrites installer scripts for one instance directory.
pub struct InstallerRewriter {
    rules: Vec<RewriteRule>,
}

/// The rules of a rewriter, as plain values.
pub open spec fn rule_views(rules: Seq<RewriteRule>) -> Seq<RuleSpec> {
    rules.map_values(|r: RewriteRule| r@)
}

impl View for InstallerRewriter {
    type V = Seq<RuleSpec>;

    closed spec fn view(&self) -> Seq<RuleSpec> {
        rule_views(self.rules@)
    }
}

/// Whether every rule's pattern compiles.
pub open spec fn all_patterns_valid(rules: Seq<RuleSpec>) -> bool {
    forall|i: int| 0 <= i < rules.len() ==> regex_valid(#[trigger] rules[i].0)
}

impl InstallerRewriter {
    /// Every rule of a rewriter has a pattern that compiles.
    #[verifier::type_invariant]
    closed spec fn patterns_compile(&self) -> bool {
        all_patterns_valid(self@)
    }
}

/// The home directory the rules are built for: the one found, or the text
/// `$HOME` when none was.
pub open spec fn home_or_placeholder(found: Option<Seq<char>>) -> Seq<char> {
    match found {
        Some(h) => h,
        None => "$HOME"@,
    }
}

/// The text of an optional string.
pub open spec fn opt_view(s: Option<&str>) -> Option<Seq<char>> {
    match s {
        Some(t) => Some(t@),
        None => None,
    }
}

/// The pattern for a location under the home directory: the home
/// directory, escaped, then `suffix` as regex text.
pub open spec fn home_pattern(home: Seq<char>, suffix: Seq<char>) -> Seq<char> {
    regex_escaped(home) + suffix
}

/// The rules for instance directory `dir` and home directory `home`, in the
/// order they are applied: system binary directories, the home directory's
/// XDG locations written out and with `~`, `$HOME`, and the XDG variables.
pub open spec fn rule_table(dir: Seq<char>, home: Seq<char>) -> Seq<RuleSpec> {
    let bin = dir + "/bin"@;
    let data = dir + "/data"@;
    let state = dir + "/state"@;
    let config = dir + "/config"@;
    let cache = dir + "/cache"@;
    let home_dir = dir + "/home"@;
    seq![
        ("/usr/local/bin"@, bin, "/usr/local/bin → instance/bin"@),
        ("/usr/bin"@, bin, "/usr/bin → instance/bin"@),
        (home_pattern(home, "/.local/share"@), data, "~/.local/share → instance/data"@),
        (home_pattern(home, "/.local/state"@), state, "~/.local/state → instance/state"@),
        (home_pattern(home, "/.local/bin"@), bin, "~/.local/bin → instance/bin"@),
        (home_pattern(home, "/.config"@), config, "~/.config → instance/config"@),
        (home_pattern(home, "/.cache"@), cache, "~/.cache → instance/cache"@),
        ("~/.local/share"@, data, "~/.local/share → instance/data"@),
        ("~/.local/state"@, state, "~/.local/state → instance/state"@),
        ("~/.local/bin"@, bin, "~/.local/bin → instance/bin"@),
        ("~/.config"@, config, "~/.config → instance/config"@),
        ("~/.cache"@, cache, "~/.cache → instance/cache"@),
        ("\\$\\{HOME\\}"@, home_dir, "${HOME} → instance/home"@),
        ("\\$HOME"@, home_dir, "$HOME → instance/home"@),
        ("\\$\\{?XDG_CONFIG_HOME\\}?"@, config, "$XDG_CONFIG_HOME → instance/config"@),
        ("\\$\\{?XDG_CACHE_HOME\\}?"@, cache, "$XDG_CACHE_HOME → instance/cache"@),
        ("\\$\\{?XDG_DATA_HOME\\}?"@, data, "$XDG_DATA_HOME → instance/data"@),
        ("\\$\\{?XDG_STATE_HOME\\}?"@, state, "$XDG_STATE_HOME → instance/state"@),
    ]
}

/// Every rule pattern for a home directory of at most
/// `escaped_literal_limit()` characters is one the regex crate documents to
/// compile.
proof fn lemma_rule_patterns_documented(dir: Seq<char>, home: Seq<char>)
    requires
        home.len() <= escaped_literal_limit(),
    ensures
        forall|i: int| 0 <= i < rule_table(dir, home).len() ==> documented_to_compile(#[trigger] rule_table(dir, home)[i].0),
{
    let t = rule_table(dir, home);
    let f = fixed_patterns();
    let x = literal_suffixes();
    assert(f[3] == t[0].0 && f[4] == t[1].0);
    assert(f[5] == t[7].0 && f[6] == t[8].0 && f[7] == t[9].0 && f[8] == t[10].0 && f[9] == t[11].0);
    assert(f[10] == t[12].0 && f[11] == t[13].0 && f[12] == t[14].0 && f[13] == t[15].0);
    assert(f[14] == t[16].0 && f[15] == t[17].0);
    assert(x[0] == "/.local/share"@ && x[1] == "/.local/state"@ && x[2] == "/.local/bin"@);
    assert(x[3] == "/.config"@ && x[4] == "/.cache"@);
    assert(x.contains(x[0]) && x.contains(x[1]) && x.contains(x[2]) && x.contains(x[3]) && x.contains(x[4]));
    assert(t[2].0 == regex_escaped(home) + x[0]);
    assert(t[3].0 == regex_escaped(home) + x[1]);
    assert(t[4].0 == regex_escaped(home) + x[2]);
    assert(t[5].0 == regex_escaped(home) + x[3]);
    assert(t[6].0 == regex_escaped(home) + x[4]);
    assert forall|i: int| 0 <= i < t.len() implies documented_to_compile(#[trigger] t[i].0) by {
        if i == 0 || i == 1 || 7 <= i {
            assert(f.contains(t[i].0)) by {
                if i == 0 { assert(f[3] == t[i].0); }
                else if i == 1 { assert(f[4] == t[i].0); }
                else { assert(f[i - 2] == t[i].0); }
            }
        } else {
            assert(is_escaped_literal_pattern(t[i].0)) by {
                assert(t[i].0 == regex_escaped(home) + x[i - 2]);
                assert(x.contains(x[i - 2]));
            }
        }
    }
}

/// A rule whose replacement is `dir` followed by `suffix`.
fn make_rule(pattern: String, dir: &str, suffix: &str, description: &str) -> (r: RewriteRule)
    ensures
        r@ == (pattern@, dir@ + suffix@, description@),
{
    let mut replacement = String::new();
    push_str(&mut replacement, dir);
    push_str(&mut replacement, suffix);
    let description = string_of(chars_of(description).as_slice());
    proof {
        assert(Seq::<char>::empty() + dir@ =~= dir@);
    }
    RewriteRule { pattern, replacement, description }
}

/// The pattern text `prefix` followed by `suffix`.
fn pattern_of(prefix: &str, suffix: &str) -> (p: String)
    ensures
        p@ == prefix@ + suffix@,
{
    let mut p = String::new();
    push_str(&mut p, prefix);
    push_str(&mut p, suffix);
    proof {
        assert(Seq::<char>::empty() + prefix@ =~= prefix@);
    }
    p
}

/// Whether every pattern in `rules` compiles; it does when each is one that
/// the regex crate documents to compile.
fn patterns_all_compile(rules: &Vec<RewriteRule>) -> (ok: bool)
    ensures
        ok == all_patterns_valid(rule_views(rules@)),
        (forall|k: int| 0 <= k < rules@.len() ==> documented_to_compile(#[trigger] rules@[k].pattern@)) ==> ok,
{
    let n = rules.len();
    let mut i: usize = 0;
    while i < n
        invariant
            n == rules@.len(),
            0 <= i <= n,
            forall|k: int| 0 <= k < i ==> regex_valid(#[trigger] rules@[k].pattern@),
        decreases n - i,
    {
        if !regex_compiles(rules[i].pattern.as_str()) {
            proof {
                assert(rule_views(rules@)[i as int].0 == rules@[i as int].pattern@);
            }
            return false;
        }
        i = i + 1;
    }
    proof {
        assert forall|k: int| 0 <= k < rule_views(rules@).len() implies regex_valid(
            #[trigger] rule_views(rules@)[k].0,
        ) by {
            assert(rule_views(rules@)[k].0 == rules@[k].pattern@);
        }
    }
    true
}

/// A change that a rewrite made: which rule, and how many matches it replaced.
#[derive(Debug)]
pub struct RewriteChange {
    pub description: String,
    pub count: usize,
}

impl View for RewriteChange {
    type V = (Seq<char>, usize);

    open spec fn view(&self) -> (Seq<char>, usize) {
        (self.description@, self.count)
    }
}

/// The changes as plain values.
pub open spec fn change_views(changes: Seq<RewriteChange>) -> Seq<(Seq<char>, usize)> {
    changes.map_values(|c: RewriteChange| c@)
}

/// A rewritten script and the changes made to it.
#[derive(Debug)]
pub struct RewriteResult {
    pub content: String,
    pub changes: Vec<RewriteChange>,
}

impl View for RewriteResult {
    type V = (Seq<char>, Seq<(Seq<char>, usize)>);

    open spec fn view(&self) -> (Seq<char>, Seq<(Seq<char>, usize)>) {
        (self.content@, change_views(self.changes@))
    }
}

/// One rule applied to text already rewritten by the rules before it: the
/// matches are counted in that text; when there are any, they are replaced
/// and the change is recorded.
pub open spec fn apply_rule(
    acc: (Seq<char>, Seq<(Seq<char>, usize)>),
    rule: RuleSpec,
) -> (Seq<char>, Seq<(Seq<char>, usize)>) {
    let n = regex_match_count(rule.0, acc.0);
    if n > 0 {
        (regex_replaced(rule.0, acc.0, rule.1), acc.1.push((rule.2, n)))
    } else {
        acc
    }
}

/// The rules applied in order to `content`.
pub open spec fn rewrite_spec(rules: Seq<RuleSpec>, content: Seq<char>) -> (
    Seq<char>,
    Seq<(Seq<char>, usize)>,
)
    decreases rules.len(),
{
    if rules.len() == 0 {
        (content, seq![])
    } else {
        apply_rule(rewrite_spec(rules.drop_last(), content), rules.last())
    }
}

/// The sum of the counts of `changes`.
pub open spec fn count_sum(changes: Seq<(Seq<char>, usize)>) -> nat
    decreases changes.len(),
{
    if changes.len() == 0 {
        0
    } else {
        count_sum(changes.drop_last()) + changes.last().1 as nat
    }
}

impl RewriteResult {
    /// The unchanged `content`, with no changes recorded.
    pub fn unchanged(content: &str) -> (r: RewriteResult)
        ensures
            r@ == (content@, Seq::<(Seq<char>, usize)>::empty()),
    {
        let r = RewriteResult { content: string_of(chars_of(content).as_slice()), changes: Vec::new() };
        proof {
            assert(change_views(r.changes@) =~= Seq::<(Seq<char>, usize)>::empty());
        }
        r
    }

    /// Records the outcome of one rule: `count` matches, and `replaced` the
    /// text with them replaced. When there were none, nothing changes.
    pub fn record(&mut self, description: &str, count: usize, replaced: String)
        ensures
            count > 0 ==> final(self)@ == (replaced@, old(self)@.1.push((description@, count))),
            count == 0 ==> final(self)@ == old(self)@,
    {
        if count > 0 {
            self.content = replaced;
            let ghost before = self.changes@;
            self.changes.push(
                RewriteChange { description: string_of(chars_of(description).as_slice()), count },
            );
            proof {
                assert(change_views(self.changes@) =~= change_views(before).push(
                    (description@, count),
                ));
            }
        }
    }

    /// The number of references rewritten, over all rules.
    pub fn total_changes(&self) -> (total: usize)
        requires
            count_sum(self@.1) <= usize::MAX,
        ensures
            total == count_sum(self@.1),
    {
        let n = self.changes.len();
        let mut total: usize = 0;
        let mut i: usize = 0;
        while i < n
            invariant
                n == self.changes@.len(),
                0 <= i <= n,
                total == count_sum(change_views(self.changes@.take(i as int))),
                count_sum(self@.1) <= usize::MAX,
            decreases n - i,
        {
            proof {
                let all = change_views(self.changes@);
                assert(change_views(self.changes@.take(i + 1)) =~= all.take(i + 1));
                assert(change_views(self.changes@.take(i as int)) =~= all.take(i as int));
                assert(all.take(i + 1).drop_last() =~= all.take(i as int));
                lemma_count_sum_prefix(all, i + 1);
            }
            total = total + self.changes[i].count;
            i = i + 1;
        }
        proof {
            assert(self.changes@.take(n as int) =~= self.changes@);
        }
        total
    }

    /// Whether any rule rewrote anything.
    pub fn has_changes(&self) -> (b: bool)
        ensures
            b == (self@.1.len() > 0),
    {
        self.changes.len() > 0
    }
}

/// A prefix of the changes sums to no more than all of them.
pub proof fn lemma_count_sum_prefix(changes: Seq<(Seq<char>, usize)>, k: int)
    requires
        0 <= k <= changes.len(),
    ensures
        count_sum(changes.take(k)) <= count_sum(changes),
    decreases changes.len() - k,
{
    if k < changes.len() {
        lemma_count_sum_prefix(changes, k + 1);
        assert(changes.take(k + 1).drop_last() =~= changes.take(k));
    } else {
        assert(changes.take(k) =~= changes);
    }
}

impl InstallerRewriter {
    /// The rewriter for instance directory `instance_dir`, taking the home
    /// directory from the environment through `dirs::home_dir`, and the
    /// text `$HOME` when none is found: what `for_home_dir` makes of that
    /// answer, which this function cannot know in advance.
    pub fn new(instance_dir: &str) -> (r: Option<InstallerRewriter>)
        ensures
            exists|found: Option<Seq<char>>|
                #![trigger home_or_placeholder(found)]
                {
                    &&& (found matches Some(h) ==> h.len() > 0)
                    &&& (r is Some <==> all_patterns_valid(rule_table(instance_dir@, home_or_placeholder(found))))
                    &&& (r matches Some(rw) ==> rw@ == rule_table(instance_dir@, home_or_placeholder(found)))
                    &&& (home_or_placeholder(found).len() <= escaped_literal_limit() ==> r is Some)
                },
    {
        let found = home_dir();
        let r = match &found {
            Some(h) => InstallerRewriter::for_home_dir(instance_dir, Some(h.as_str())),
            None => InstallerRewriter::for_home_dir(instance_dir, None),
        };
        proof {
            let f = match found {
                Some(h) => Some(h@),
                None => None,
            };
            assert(home_or_placeholder(f) == home_or_placeholder(f));
        }
        r
    }

    /// The rewriter for instance directory `instance_dir` and the home
    /// directory found, if any; without one, the text `$HOME` stands in for
    /// it in the rules. It always succeeds without one, and with one of at
    /// most `escaped_literal_limit()` characters.
    pub fn for_home_dir(instance_dir: &str, home: Option<&str>) -> (r: Option<InstallerRewriter>)
        ensures
            r is Some <==> all_patterns_valid(rule_table(instance_dir@, home_or_placeholder(opt_view(home)))),
            r matches Some(rw) ==> rw@ == rule_table(instance_dir@, home_or_placeholder(opt_view(home))),
            home_or_placeholder(opt_view(home)).len() <= escaped_literal_limit() ==> r is Some,
            home is None ==> r is Some,
    {
        match home {
            Some(h) => InstallerRewriter::with_home(instance_dir, h),
            None => {
                proof {
                    reveal_strlit("$HOME");
                }
                InstallerRewriter::with_home(instance_dir, "$HOME")
            },
        }
    }

    /// The rewriter for instance directory `instance_dir` and home directory
    /// `home`. `None` exactly when some rule's pattern does not compile,
    /// which a home of at most `escaped_literal_limit()` characters rules
    /// out.
    pub fn with_home(instance_dir: &str, home: &str) -> (r: Option<InstallerRewriter>)
        ensures
            r is Some <==> all_patterns_valid(rule_table(instance_dir@, home@)),
            r matches Some(rw) ==> rw@ == rule_table(instance_dir@, home@),
            home@.len() <= escaped_literal_limit() ==> r is Some,
    {
        let h = regex_escape(home);
        let hs = h.as_str();
        let d = instance_dir;
        let mut rules: Vec<RewriteRule> = Vec::new();
        rules.push(make_rule(string_of(chars_of("/usr/local/bin").as_slice()), d, "/bin", "/usr/local/bin → instance/bin"));
        rules.push(make_rule(string_of(chars_of("/usr/bin").as_slice()), d, "/bin", "/usr/bin → instance/bin"));
        rules.push(make_rule(pattern_of(hs, "/.local/share"), d, "/data", "~/.local/share → instance/data"));
        rules.push(make_rule(pattern_of(hs, "/.local/state"), d, "/state", "~/.local/state → instance/state"));
        rules.push(make_rule(pattern_of(hs, "/.local/bin"), d, "/bin", "~/.local/bin → instance/bin"));
        rules.push(make_rule(pattern_of(hs, "/.config"), d, "/config", "~/.config → instance/config"));
        rules.push(make_rule(pattern_of(hs, "/.cache"), d, "/cache", "~/.cache → instance/cache"));
        rules.push(make_rule(string_of(chars_of("~/.local/share").as_slice()), d, "/data", "~/.local/share → instance/data"));
        rules.push(make_rule(string_of(chars_of("~/.local/state").as_slice()), d, "/state", "~/.local/state → instance/state"));
        rules.push(make_rule(string_of(chars_of("~/.local/bin").as_slice()), d, "/bin", "~/.local/bin → instance/bin"));
        rules.push(make_rule(string_of(chars_of("~/.config").as_slice()), d, "/config", "~/.config → instance/config"));
        rules.push(make_rule(string_of(chars_of("~/.cache").as_slice()), d, "/cache", "~/.cache → instance/cache"));
        rules.push(make_rule(string_of(chars_of("\\$\\{HOME\\}").as_slice()), d, "/home", "${HOME} → instance/home"));
        rules.push(make_rule(string_of(chars_of("\\$HOME").as_slice()), d, "/home", "$HOME → instance/home"));
        rules.push(make_rule(string_of(chars_of("\\$\\{?XDG_CONFIG_HOME\\}?").as_slice()), d, "/config", "$XDG_CONFIG_HOME → instance/config"));
        rules.push(make_rule(string_of(chars_of("\\$\\{?XDG_CACHE_HOME\\}?").as_slice()), d, "/cache", "$XDG_CACHE_HOME → instance/cache"));
        rules.push(make_rule(string_of(chars_of("\\$\\{?XDG_DATA_HOME\\}?").as_slice()), d, "/data", "$XDG_DATA_HOME → instance/data"));
        rules.push(make_rule(string_of(chars_of("\\$\\{?XDG_STATE_HOME\\}?").as_slice()), d, "/state", "$XDG_STATE_HOME → instance/state"));
        proof {
            assert(rule_views(rules@) =~= rule_table(instance_dir@, home@));
            if home@.len() <= escaped_literal_limit() {
                lemma_rule_patterns_documented(instance_dir@, home@);
                assert forall|k: int| 0 <= k < rules@.len() implies documented_to_compile(
                    #[trigger] rules@[k].pattern@,
                ) by {
                    assert(rule_views(rules@)[k].0 == rules@[k].pattern@);
                }
            }
        }
        if patterns_all_compile(&rules) {
            Some(InstallerRewriter { rules })
        } else {
            None
        }
    }

    /// Applies the rules in order to `content`. Each rule counts its matches
    /// in the text as rewritten so far; a rule with matches replaces them all
    /// and is recorded with its count.
    pub fn rewrite(&self, content: &str) -> (r: RewriteResult)
        ensures
            r@ == rewrite_spec(self@, content@),
    {
        proof {
            use_type_invariant(self);
        }
        let mut result = RewriteResult::unchanged(content);
        let n = self.rules.len();
        let mut i: usize = 0;
        proof {
            assert(rule_views(self.rules@).take(0) =~= Seq::<RuleSpec>::empty());
        }
        while i < n
            invariant
                n == self.rules@.len(),
                0 <= i <= n,
                all_patterns_valid(rule_views(self.rules@)),
                result@ == rewrite_spec(rule_views(self.rules@).take(i as int), content@),
            decreases n - i,
        {
            let rule = &self.rules[i];
            proof {
                assert(rule_views(self.rules@)[i as int] == rule@);
                assert(regex_valid(rule_views(self.rules@)[i as int].0));
            }
            let count = regex_count_matches(rule.pattern.as_str(), result.content.as_str());
            if count > 0 {
                let replaced = regex_replace_all(
                    rule.pattern.as_str(),
                    result.content.as_str(),
                    rule.replacement.as_str(),
                );
                result.record(rule.description.as_str(), count, replaced);
            }
            proof {
                let rs = rule_views(self.rules@);
                assert(rs.take(i + 1).drop_last() =~= rs.take(i as int));
                assert(rs.take(i + 1).last() == rule@);
            }
            i = i + 1;
        }
        proof {
            assert(rule_views(self.rules@).take(n as int) =~= rule_views(self.rules@));
        }
        result
    }

    /// Checks a rewritten installer: one that contains `..` followed by a
    /// slash or backslash is refused as a path traversal.
    pub fn validate(content: &str, _instance_dir: &str) -> (r: Result<(), RewriteError>)
        ensures
            r == validation_verdict(content@),
            r == (if has_dot_dot_separator(content@) {
                Err(RewriteError::PathTraversal)
            } else {
                Ok(())
            }),
    {
        let chars = chars_of(content);
        let dots = chars_of("..");
        if contains_substring(chars.as_slice(), dots.as_slice()) {
            if !regex_compiles("\\.\\.[\\\\/]") {
                return Err(RewriteError::PatternRejected);
            }
            if regex_is_match("\\.\\.[\\\\/]", content) {
                return Err(RewriteError::PathTraversal);
            }
        } else {
            proof {
                reveal_strlit("..");
                if has_dot_dot_separator(content@) {
                    let i = choose|i: int|
                        0 <= i && i + 2 < content@.len() && #[trigger] content@[i] == '.' && content@[i + 1]
                            == '.' && (content@[i + 2] == '/' || content@[i + 2] == '\\');
                    assert(content@.subrange(i, i + 2) =~= ".."@);
                }
            }
        }
        Ok(())
    }
}

/// Why a rewritten installer is refused.
#[derive(Debug, Clone, Copy, PartialEq, Eq, Structural)]
pub enum RewriteError {
    /// The installer contains `../` or `..\`.
    PathTraversal,
    /// The traversal pattern did not compile.
    PatternRejected,
}

impl RewriteError {
    /// The message shown for the error.
    pub fn message(&self) -> (m: &'static str)
        ensures
            *self == RewriteError::PathTraversal ==> m@
                == "installer contains path traversal sequences (../) which are not allowed"@,
            *self == RewriteError::PatternRejected ==> m@ == "path traversal pattern failed to compile"@,
    {
        match self {
            RewriteError::PathTraversal => "installer contains path traversal sequences (../) which are not allowed",
            RewriteError::PatternRejected => "path traversal pattern failed to compile",
        }
    }
}

/// The outcome of validating `content`.
pub open spec fn validation_verdict(content: Seq<char>) -> Result<(), RewriteError> {
    let p = "\\.\\.[\\\\/]"@;
    if has_substring(content, ".."@) {
        if !regex_valid(p) {
            Err(RewriteError::PatternRejected)
        } else if regex_matches(p, content) {
            Err(RewriteError::PathTraversal)
        } else {
            Ok(())
        }
    } else {
        Ok(())
    }
}


/// The diff entry for line number `k` (counting from 1).
pub open spec fn diff_entry(k: nat, orig: Seq<char>, rewr: Seq<char>) -> Seq<char> {
    "@@ line "@ + decimal(k) + " @@\n"@ + "-"@ + orig + "\n"@ + "+"@ + rewr + "\n"@
}

/// The entries for the first `n` line pairs: one for each pair that differs.
pub open spec fn diff_entries(a: Seq<Seq<char>>, b: Seq<Seq<char>>, n: nat) -> Seq<char>
    decreases n,
{
    if n == 0 {
        seq![]
    } else {
        diff_entries(a, b, (n - 1) as nat) + (if a[n - 1] != b[n - 1] {
            diff_entry(n, a[n - 1], b[n - 1])
        } else {
            seq![]
        })
    }
}

/// The smaller of two lengths.
pub open spec fn min_len(a: nat, b: nat) -> nat {
    if a <= b {
        a
    } else {
        b
    }
}

/// The diff of two scripts: a header, then for each line position present
/// in both whose lines differ, its number and both lines.
pub open spec fn diff_spec(original: Seq<char>, rewritten: Seq<char>) -> Seq<char> {
    let a = lines(original);
    let b = lines(rewritten);
    "--- original\n"@ + "+++ rewritten\n"@ + diff_entries(a, b, min_len(a.len(), b.len()))
}

/// A line-by-line diff of an installer and its rewrite.
pub fn generate_diff(original: &str, rewritten: &str) -> (diff: String)
    ensures
        diff@ == diff_spec(original@, rewritten@),
{
    let oc = chars_of(original);
    let rc = chars_of(rewritten);
    let a = split_lines(oc.as_slice());
    let b = split_lines(rc.as_slice());
    let ghost la = lines(original@);
    let ghost lb = lines(rewritten@);
    proof {
        assert forall|k: int| 0 <= k < a@.len() implies #[trigger] a@[k]@ == la[k] by {
            assert(views(a@)[k] == a@[k]@);
        }
        assert forall|k: int| 0 <= k < b@.len() implies #[trigger] b@[k]@ == lb[k] by {
            assert(views(b@)[k] == b@[k]@);
        }
    }
    let mut diff = String::new();
    push_str(&mut diff, "--- original\n");
    push_str(&mut diff, "+++ rewritten\n");
    let n = if a.len() <= b.len() {
        a.len()
    } else {
        b.len()
    };
    let ghost header = "--- original\n"@ + "+++ rewritten\n"@;
    proof {
        assert(Seq::<char>::empty() + "--- original\n"@ =~= "--- original\n"@);
        assert(header + diff_entries(la, lb, 0) =~= header);
    }
    let mut i: usize = 0;
    while i < n
        invariant
            n == min_len(la.len(), lb.len()),
            a@.len() == la.len(),
            b@.len() == lb.len(),
            forall|k: int| 0 <= k < a@.len() ==> #[trigger] a@[k]@ == la[k],
            forall|k: int| 0 <= k < b@.len() ==> #[trigger] b@[k]@ == lb[k],
            0 <= i <= n,
            diff@ == header + diff_entries(la, lb, i as nat),
        decreases n - i,
    {
        let ghost before = diff@;
        if !crate::text::chars_eq(a[i].as_slice(), b[i].as_slice()) {
            push_str(&mut diff, "@@ line ");
            push_decimal(&mut diff, (i + 1) as u64);
            push_str(&mut diff, " @@\n");
            push_str(&mut diff, "-");
            push_chars(&mut diff, a[i].as_slice());
            push_str(&mut diff, "\n");
            push_str(&mut diff, "+");
            push_chars(&mut diff, b[i].as_slice());
            push_str(&mut diff, "\n");
            proof {
                assert(diff@ =~= before + diff_entry((i + 1) as nat, la[i as int], lb[i as int]));
            }
        }
        proof {
            assert(diff_entries(la, lb, (i + 1) as nat) == diff_entries(la, lb, i as nat) + (if la[i as int] != lb[i as int] {
                diff_entry((i + 1) as nat, la[i as int], lb[i as int])
            } else {
                seq![]
            }));
            if la[i as int] == lb[i as int] {
                assert(diff@ =~= header + diff_entries(la, lb, (i + 1) as nat));
            } else {
                assert(diff@ =~= header + diff_entries(la, lb, (i + 1) as nat));
            }
        }
        i = i + 1;
    }
    diff
}


/// `e` occurring in `x` occurs in `p + x + q`.
proof fn lemma_substring_extend(x: Seq<char>, e: Seq<char>, p: Seq<char>, q: Seq<char>)
    requires
        has_substring(x, e),
    ensures
        has_substring(p + x + q, e),
{
    let i = choose|i: int| 0 <= i && i + e.len() <= x.len() && #[trigger] x.subrange(i, i + e.len()) == e;
    let y = p + x + q;
    assert(y.subrange(p.len() + i, p.len() + i + e.len()) =~= x.subrange(i, i + e.len()));
}

/// Every differing line pair among the first `n` has its entry in the
/// entries for the first `n` pairs.
proof fn lemma_diff_entries_contain(a: Seq<Seq<char>>, b: Seq<Seq<char>>, n: nat, k: int)
    requires
        0 <= k < n,
        n <= a.len(),
        n <= b.len(),
        a[k] != b[k],
    ensures
        has_substring(
            diff_entries(a, b, n),
            "@@ line "@ + decimal((k + 1) as nat) + " @@\n"@ + "-"@ + a[k] + "\n"@ + "+"@ + b[k] + "\n"@,
        ),
    decreases n,
{
    let e = "@@ line "@ + decimal((k + 1) as nat) + " @@\n"@ + "-"@ + a[k] + "\n"@ + "+"@ + b[k] + "\n"@;
    let prev = diff_entries(a, b, (n - 1) as nat);
    if k == n - 1 {
        assert(diff_entry(n, a[k], b[k]) =~= e);
        assert(diff_entries(a, b, n) =~= prev + e);
        assert((prev + e).subrange(prev.len() as int, (prev.len() + e.len()) as int) =~= e);
    } else {
        lemma_diff_entries_contain(a, b, (n - 1) as nat, k);
        let tail = if a[n - 1] != b[n - 1] {
            diff_entry(n, a[n - 1], b[n - 1])
        } else {
            Seq::<char>::empty()
        };
        lemma_substring_extend(prev, e, Seq::<char>::empty(), tail);
        assert(Seq::<char>::empty() + prev + tail =~= diff_entries(a, b, n));
    }
}

/// Line lists that agree on the first `n` positions have no entries there.
proof fn lemma_diff_entries_agree(a: Seq<Seq<char>>, b: Seq<Seq<char>>, n: nat)
    requires
        n <= a.len(),
        n <= b.len(),
        forall|k: int| 0 <= k < n ==> a[k] == b[k],
    ensures
        diff_entries(a, b, n) == Seq::<char>::empty(),
    decreases n,
{
    if n > 0 {
        lemma_diff_entries_agree(a, b, (n - 1) as nat);
        assert(diff_entries(a, b, (n - 1) as nat) + Seq::<char>::empty() =~= Seq::<char>::empty());
    }
}

/// Law: the diff starts with its header and shows every changed line: for
/// each line position present in both scripts whose lines differ, it holds
/// `@@ line N @@`, the original line after `-` and the rewritten one after
/// `+`. Scripts whose common lines all agree give the header alone.
pub proof fn lemma_diff_shows_every_change(original: Seq<char>, rewritten: Seq<char>)
    ensures
        ("--- original\n"@ + "+++ rewritten\n"@).is_prefix_of(diff_spec(original, rewritten)),
        forall|k: int|
            0 <= k < lines(original).len() && 0 <= k < lines(rewritten).len() && lines(original)[k]
                != lines(rewritten)[k] ==> has_substring(
                diff_spec(original, rewritten),
                #[trigger] ("@@ line "@ + decimal((k + 1) as nat) + " @@\n"@ + "-"@ + lines(original)[k] + "\n"@
                    + "+"@ + lines(rewritten)[k] + "\n"@),
            ),
        (forall|k: int|
            0 <= k < lines(original).len() && 0 <= k < lines(rewritten).len() ==> lines(original)[k]
                == lines(rewritten)[k]) ==> diff_spec(original, rewritten) == "--- original\n"@
            + "+++ rewritten\n"@,
{
    let a = lines(original);
    let b = lines(rewritten);
    let n = min_len(a.len(), b.len());
    let h = "--- original\n"@ + "+++ rewritten\n"@;
    let d = diff_spec(original, rewritten);
    assert(d == h + diff_entries(a, b, n));
    assert(d.subrange(0, h.len() as int) =~= h);
    assert forall|k: int|
        0 <= k < a.len() && 0 <= k < b.len() && a[k] != b[k] implies has_substring(
        d,
        #[trigger] ("@@ line "@ + decimal((k + 1) as nat) + " @@\n"@ + "-"@ + a[k] + "\n"@ + "+"@ + b[k] + "\n"@),
    ) by {
        let e = "@@ line "@ + decimal((k + 1) as nat) + " @@\n"@ + "-"@ + a[k] + "\n"@ + "+"@ + b[k] + "\n"@;
        lemma_diff_entries_contain(a, b, n, k);
        lemma_substring_extend(diff_entries(a, b, n), e, h, Seq::<char>::empty());
        assert(h + diff_entries(a, b, n) + Seq::<char>::empty() =~= d);
    }
    if forall|k: int| 0 <= k < a.len() && 0 <= k < b.len() ==> a[k] == b[k] {
        lemma_diff_entries_agree(a, b, n);
        assert(h + Seq::<char>::empty() =~= h);
    }
}

/// Law: a script diffed with itself shows no line, only the header.
pub proof fn lemma_diff_identical(script: Seq<char>)
    ensures
        diff_spec(script, script) == "--- original\n"@ + "+++ rewritten\n"@,
{
    let a = lines(script);
    lemma_diff_entries_equal(a, a.len());
    assert(("--- original\n"@ + "+++ rewritten\n"@) + Seq::<char>::empty() =~= "--- original\n"@
        + "+++ rewritten\n"@);
}

/// Equal line lists have no diff entries.
proof fn lemma_diff_entries_equal(a: Seq<Seq<char>>, n: nat)
    requires
        n <= a.len(),
    ensures
        diff_entries(a, a, n) == Seq::<char>::empty(),
    decreases n,
{
    if n > 0 {
        lemma_diff_entries_equal(a, (n - 1) as nat);
        assert(diff_entries(a, a, (n - 1) as nat) + Seq::<char>::empty() =~= Seq::<char>::empty());
    }
}

/// Whether every recorded change replaced at least one match.
pub open spec fn counts_positive(changes: Seq<(Seq<char>, usize)>) -> bool {
    forall|i: int| 0 <= i < changes.len() ==> #[trigger] changes[i].1 > 0
}

/// Law: a rewrite records at most one change per rule, each with a positive
/// count, and when it records none the content is left exactly as it was.
pub proof fn lemma_rewrite_changes(rules: Seq<RuleSpec>, content: Seq<char>)
    ensures
        counts_positive(rewrite_spec(rules, content).1),
        rewrite_spec(rules, content).1.len() <= rules.len(),
        rewrite_spec(rules, content).1.len() == 0 ==> rewrite_spec(rules, content).0 == content,
    decreases rules.len(),
{
    if rules.len() > 0 {
        lemma_rewrite_changes(rules.drop_last(), content);
        let prev = rewrite_spec(rules.drop_last(), content);
        let n = regex_match_count(rules.last().0, prev.0);
        if n > 0 {
            let ch = prev.1.push((rules.last().2, n));
            assert forall|i: int| 0 <= i < ch.len() implies #[trigger] ch[i].1 > 0 by {
                if i < prev.1.len() {
                    assert(ch[i] == prev.1[i]);
                }
            }
        }
    }
}

/// Law: the rewrite reports changes exactly when it rewrote at least one
/// reference: with positive counts, there are changes if and only if their
/// total is positive.
pub proof fn lemma_has_changes_iff_total(changes: Seq<(Seq<char>, usize)>)
    requires
        counts_positive(changes),
    ensures
        (changes.len() > 0) <==> (count_sum(changes) > 0),
{
    if changes.len() > 0 {
        assert(changes[changes.len() - 1].1 > 0);
    }
}

/// Law: a script in which no rule's pattern matches is left unchanged, and
/// no change is recorded.
pub proof fn lemma_rewrite_no_match(rules: Seq<RuleSpec>, content: Seq<char>)
    requires
        forall|i: int| 0 <= i < rules.len() ==> regex_match_count(#[trigger] rules[i].0, content) == 0,
    ensures
        rewrite_spec(rules, content) == (content, Seq::<(Seq<char>, usize)>::empty()),
    decreases rules.len(),
{
    if rules.len() > 0 {
        let init = rules.drop_last();
        assert forall|i: int| 0 <= i < init.len() implies regex_match_count(#[trigger] init[i].0, content) == 0 by {
            assert(init[i] == rules[i]);
        }
        lemma_rewrite_no_match(init, content);
        assert(regex_match_count(rules[rules.len() - 1].0, content) == 0);
    }
}

/// Law: every rule sends what it matches to the instance subdirectory its
/// description names: a description reads `SOURCE → instance/SUB`, and the
/// replacement is the instance directory followed by `/SUB`.
pub proof fn lemma_rules_go_where_described(dir: Seq<char>, home: Seq<char>)
    ensures
        forall|i: int|
            0 <= i < rule_table(dir, home).len() ==> exists|source: Seq<char>, sub: Seq<char>|
                #[trigger] rule_table(dir, home)[i].2 == source + " → instance"@ + sub
                    && rule_table(dir, home)[i].1 == dir + sub,
{
    reveal_strlit(" → instance");
    reveal_strlit("$HOME");
    reveal_strlit("$HOME → instance/home");
    reveal_strlit("$XDG_CACHE_HOME");
    reveal_strlit("$XDG_CACHE_HOME → instance/cache");
    reveal_strlit("$XDG_CONFIG_HOME");
    reveal_strlit("$XDG_CONFIG_HOME → instance/config");
    reveal_strlit("$XDG_DATA_HOME");
    reveal_strlit("$XDG_DATA_HOME → instance/data");
    reveal_strlit("$XDG_STATE_HOME");
    reveal_strlit("$XDG_STATE_HOME → instance/state");
    reveal_strlit("${HOME}");
    reveal_strlit("${HOME} → instance/home");
    reveal_strlit("/bin");
    reveal_strlit("/cache");
    reveal_strlit("/config");
    reveal_strlit("/data");
    reveal_strlit("/home");
    reveal_strlit("/state");
    reveal_strlit("/usr/bin");
    reveal_strlit("/usr/bin → instance/bin");
    reveal_strlit("/usr/local/bin");
    reveal_strlit("/usr/local/bin → instance/bin");
    reveal_strlit("~/.cache");
    reveal_strlit("~/.cache → instance/cache");
    reveal_strlit("~/.config");
    reveal_strlit("~/.config → instance/config");
    reveal_strlit("~/.local/bin");
    reveal_strlit("~/.local/bin → instance/bin");
    reveal_strlit("~/.local/share");
    reveal_strlit("~/.local/share → instance/data");
    reveal_strlit("~/.local/state");
    reveal_strlit("~/.local/state → instance/state");
    let t = rule_table(dir, home);
    let m = " → instance"@;
    assert(t[0].2 =~= "/usr/local/bin"@ + m + "/bin"@ && t[0].1 == dir + "/bin"@);
    assert(t[1].2 =~= "/usr/bin"@ + m + "/bin"@ && t[1].1 == dir + "/bin"@);
    assert(t[2].2 =~= "~/.local/share"@ + m + "/data"@ && t[2].1 == dir + "/data"@);
    assert(t[3].2 =~= "~/.local/state"@ + m + "/state"@ && t[3].1 == dir + "/state"@);
    assert(t[4].2 =~= "~/.local/bin"@ + m + "/bin"@ && t[4].1 == dir + "/bin"@);
    assert(t[5].2 =~= "~/.config"@ + m + "/config"@ && t[5].1 == dir + "/config"@);
    assert(t[6].2 =~= "~/.cache"@ + m + "/cache"@ && t[6].1 == dir + "/cache"@);
    assert(t[7].2 =~= "~/.local/share"@ + m + "/data"@ && t[7].1 == dir + "/data"@);
    assert(t[8].2 =~= "~/.local/state"@ + m + "/state"@ && t[8].1 == dir + "/state"@);
    assert(t[9].2 =~= "~/.local/bin"@ + m + "/bin"@ && t[9].1 == dir + "/bin"@);
    assert(t[10].2 =~= "~/.config"@ + m + "/config"@ && t[10].1 == dir + "/config"@);
    assert(t[11].2 =~= "~/.cache"@ + m + "/cache"@ && t[11].1 == dir + "/cache"@);
    assert(t[12].2 =~= "${HOME}"@ + m + "/home"@ && t[12].1 == dir + "/home"@);
    assert(t[13].2 =~= "$HOME"@ + m + "/home"@ && t[13].1 == dir + "/home"@);
    assert(t[14].2 =~= "$XDG_CONFIG_HOME"@ + m + "/config"@ && t[14].1 == dir + "/config"@);
    assert(t[15].2 =~= "$XDG_CACHE_HOME"@ + m + "/cache"@ && t[15].1 == dir + "/cache"@);
    assert(t[16].2 =~= "$XDG_DATA_HOME"@ + m + "/data"@ && t[16].1 == dir + "/data"@);
    assert(t[17].2 =~= "$XDG_STATE_HOME"@ + m + "/state"@ && t[17].1 == dir + "/state"@);
}

/// Law: every location the rewriter substitutes lies inside the instance
/// directory (component by component), whatever the home directory.
pub proof fn lemma_replacements_within_instance(dir: Seq<char>, home: Seq<char>)
    ensures
        forall|i: int| 0 <= i < rule_table(dir, home).len() ==> within(
            #[trigger] rule_table(dir, home)[i].1,
            dir,
        ),
{
    reveal_strlit("/bin");
    reveal_strlit("/data");
    reveal_strlit("/state");
    reveal_strlit("/config");
    reveal_strlit("/cache");
    reveal_strlit("/home");
    reveal_strlit("bin");
    reveal_strlit("data");
    reveal_strlit("state");
    reveal_strlit("config");
    reveal_strlit("cache");
    reveal_strlit("home");
    let subs = seq!["bin"@, "data"@, "state"@, "config"@, "cache"@, "home"@];
    assert forall|k: int| 0 <= k < subs.len() implies within(dir + seq!['/'] + #[trigger] subs[k], dir) by {
        let n = subs[k];
        assert(n.len() > 0 && n != seq!['.']) by {
            if n == seq!['.'] {
                assert(n.len() == 1);
            }
        }
        assert(!n.contains('/'));
        lemma_slash_name_within(dir, n);
    }
    assert("/bin"@ =~= seq!['/'] + subs[0]);
    assert("/data"@ =~= seq!['/'] + subs[1]);
    assert("/state"@ =~= seq!['/'] + subs[2]);
    assert("/config"@ =~= seq!['/'] + subs[3]);
    assert("/cache"@ =~= seq!['/'] + subs[4]);
    assert("/home"@ =~= seq!['/'] + subs[5]);
    assert(dir + "/bin"@ =~= dir + seq!['/'] + subs[0]);
    assert(dir + "/data"@ =~= dir + seq!['/'] + subs[1]);
    assert(dir + "/state"@ =~= dir + seq!['/'] + subs[2]);
    assert(dir + "/config"@ =~= dir + seq!['/'] + subs[3]);
    assert(dir + "/cache"@ =~= dir + seq!['/'] + subs[4]);
    assert(dir + "/home"@ =~= dir + seq!['/'] + subs[5]);
}

} // verus!
