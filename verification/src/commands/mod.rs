//! Decisions and texts of the commands: the steps of installing an
//! instance, how old an instance is shown to be, where an export goes, and
//! when the rewrite diff is offered.

pub mod dig;

use vstd::prelude::*;

use crate::text::{decimal, push_decimal, push_str};

verus! {

/// `s` unless the count is one.
pub open spec fn plural(n: nat) -> Seq<char> {
    if n == 1 {
        Seq::<char>::empty()
    } else {
        "s"@
    }
}

/// `N UNIT ago`, with the unit in the plural unless `N` is one.
pub open spec fn ago(n: nat, unit: Seq<char>) -> Seq<char> {
    decimal(n) + " "@ + unit + plural(n) + " ago"@
}

/// How long ago something happened, `seconds` ago: "just now" under a
/// minute, then whole minutes, hours, days, weeks (under five), months of
/// thirty days, and years of 365 days.
pub open spec fn relative_time(seconds: int) -> Seq<char> {
    if seconds < 60 {
        "just now"@
    } else if seconds / 60 < 60 {
        ago((seconds / 60) as nat, "min"@)
    } else if seconds / 3600 < 24 {
        ago((seconds / 3600) as nat, "hour"@)
    } else if seconds / 86400 < 7 {
        ago((seconds / 86400) as nat, "day"@)
    } else if seconds / 86400 / 7 < 5 {
        ago((seconds / 86400 / 7) as nat, "week"@)
    } else if seconds / 86400 / 30 < 12 {
        ago((seconds / 86400 / 30) as nat, "month"@)
    } else {
        ago((seconds / 86400 / 365) as nat, "year"@)
    }
}

/// Appends `N UNIT ago`.
fn push_ago(out: &mut String, n: u64, unit: &str)
    ensures
        final(out)@ == old(out)@ + ago(n as nat, unit@),
{
    push_decimal(out, n);
    push_str(out, " ");
    push_str(out, unit);
    if n != 1 {
        push_str(out, "s");
    }
    push_str(out, " ago");
    proof {
        if n == 1 {
            assert(final(out)@ =~= old(out)@ + ago(n as nat, unit@)) by {
                assert(plural(1) =~= Seq::<char>::empty());
            }
        }
    }
}

/// How long ago something happened that happened `seconds` ago.
pub fn format_relative_time(seconds: i64) -> (s: String)
    ensures
        s@ == relative_time(seconds as int),
{
    let mut s = String::new();
    if seconds < 60 {
        push_str(&mut s, "just now");
    } else {
        let minutes = seconds / 60;
        let hours = seconds / 3600;
        let days = seconds / 86400;
        if minutes < 60 {
            push_ago(&mut s, minutes as u64, "min");
        } else if hours < 24 {
            push_ago(&mut s, hours as u64, "hour");
        } else if days < 7 {
            push_ago(&mut s, days as u64, "day");
        } else if days / 7 < 5 {
            push_ago(&mut s, (days / 7) as u64, "week");
        } else if days / 30 < 12 {
            push_ago(&mut s, (days / 30) as u64, "month");
        } else {
            push_ago(&mut s, (days / 365) as u64, "year");
        }
    }
    proof {
        assert(Seq::<char>::empty() + s@ =~= s@);
    }
    s
}

/// The file an export of `alias` goes to by default: `ALIAS.warren.tar.gz`.
pub fn export_file_name(alias: &str) -> (name: String)
    ensures
        name@ == alias@ + ".warren.tar.gz"@,
{
    let mut name = String::new();
    push_str(&mut name, alias);
    push_str(&mut name, ".warren.tar.gz");
    proof {
        assert(Seq::<char>::empty() + alias@ =~= alias@);
    }
    name
}

/// Whether to offer the rewrite diff after rewriting an installer: only
/// when prompting, and when diffs are asked for or something changed.
pub fn offer_diff(yes: bool, show_diff: bool, has_changes: bool) -> (b: bool)
    ensures
        b == (!yes && (show_diff || has_changes)),
{
    !yes && (show_diff || has_changes)
}

/// `N path reference(s)`, as the rewrite step reports it.
pub fn rewrite_summary(total: usize) -> (s: String)
    ensures
        s@ == "Rewriting "@ + decimal(total as nat) + " path reference"@ + plural(total as nat),
{
    let mut s = String::new();
    push_str(&mut s, "Rewriting ");
    push_decimal(&mut s, total as u64);
    push_str(&mut s, " path reference");
    if total != 1 {
        push_str(&mut s, "s");
    }
    proof {
        assert(Seq::<char>::empty() + "Rewriting "@ =~= "Rewriting "@);
        if total == 1 {
            assert(plural(1) =~= Seq::<char>::empty());
            assert(s@ =~= "Rewriting "@ + decimal(total as nat) + " path reference"@ + plural(total as nat));
        }
    }
    s
}


/// `N instance(s)`, as the listing's summary counts them.
pub fn instance_count(n: usize) -> (s: String)
    ensures
        s@ == decimal(n as nat) + " instance"@ + plural(n as nat),
{
    let mut s = String::new();
    push_decimal(&mut s, n as u64);
    push_str(&mut s, " instance");
    if n != 1 {
        push_str(&mut s, "s");
    }
    proof {
        assert(Seq::<char>::empty() + decimal(n as nat) =~= decimal(n as nat));
        if n == 1 {
            assert(plural(1) =~= Seq::<char>::empty());
            assert(s@ =~= decimal(n as nat) + " instance"@ + plural(n as nat));
        }
    }
    s
}

/// The alias an imported instance gets, and whether its directory must be
/// renamed: the alias asked for, when one was, else the name the archive
/// holds; a rename is needed when an alias was asked for that differs from
/// the archive's.
pub fn import_target(archive_alias: &str, alias_override: Option<&str>) -> (r: (String, bool))
    ensures
        match alias_override {
            Some(a) => r.0@ == a@ && r.1 == (a@ != archive_alias@),
            None => r.0@ == archive_alias@ && !r.1,
        },
{
    let archive = crate::text::chars_of(archive_alias);
    match alias_override {
        Some(a) => {
            let ac = crate::text::chars_of(a);
            let differs = !crate::text::chars_eq(ac.as_slice(), archive.as_slice());
            (crate::text::string_of(ac.as_slice()), differs)
        },
        None => (crate::text::string_of(archive.as_slice()), false),
    }
}

} // verus!
