//! Instances: their names, their directory layout and their metadata.

pub mod layout;
pub mod metadata;
pub mod launcher;

use vstd::prelude::*;

use crate::foreign::{is_lower_hyphen_name, regex_compiles, regex_is_match, regex_matches, regex_valid};
use crate::text::{chars_of, contains_substring, decimal, has_substring, push_decimal, push_str};

verus! {

/// The pattern an alias must match: lower-case letters, digits and hyphens,
/// starting and ending with a letter or digit.
pub open spec fn alias_pattern() -> Seq<char> {
    "^[a-z0-9]([a-z0-9\\-]*[a-z0-9])?$"@
}

/// Why an alias is refused.
#[derive(Debug, Clone)]
pub enum AliasError {
    /// The alias is empty.
    Empty,
    /// The alias is longer than 64 bytes; the length is given.
    TooLong(usize),
    /// The alias does not match the alias pattern; the alias is given.
    Invalid(String),
    /// The alias contains `--`.
    ConsecutiveHyphens,
    /// The alias pattern did not compile.
    PatternRejected,
}

/// The abstract content of an [`AliasError`].
pub enum AliasFault {
    Empty,
    TooLong(nat),
    Invalid(Seq<char>),
    ConsecutiveHyphens,
    PatternRejected,
}

impl View for AliasError {
    type V = AliasFault;

    open spec fn view(&self) -> AliasFault {
        match self {
            AliasError::Empty => AliasFault::Empty,
            AliasError::TooLong(n) => AliasFault::TooLong(*n as nat),
            AliasError::Invalid(a) => AliasFault::Invalid(a@),
            AliasError::ConsecutiveHyphens => AliasFault::ConsecutiveHyphens,
            AliasError::PatternRejected => AliasFault::PatternRejected,
        }
    }
}

/// The abstract outcome of an alias check.
pub open spec fn outcome_view(r: Result<(), AliasError>) -> Result<(), AliasFault> {
    match r {
        Ok(()) => Ok(()),
        Err(e) => Err(e@),
    }
}

/// The checks on an alias of `byte_count` bytes, in order: not empty, at most
/// 64 bytes, matching the alias pattern (`matched`, or `None` when the
/// pattern does not compile), no `--`.
pub open spec fn alias_verdict(alias: Seq<char>, byte_count: nat, matched: Option<bool>) -> Result<(), AliasFault> {
    if alias.len() == 0 {
        Err(AliasFault::Empty)
    } else if byte_count > 64 {
        Err(AliasFault::TooLong(byte_count))
    } else if matched is None {
        Err(AliasFault::PatternRejected)
    } else if !matched.unwrap() {
        Err(AliasFault::Invalid(alias))
    } else if has_substring(alias, "--"@) {
        Err(AliasFault::ConsecutiveHyphens)
    } else {
        Ok(())
    }
}

/// What the alias pattern says of `alias`: `None` when it does not compile.
pub open spec fn alias_match(alias: Seq<char>) -> Option<bool> {
    if regex_valid(alias_pattern()) {
        Some(regex_matches(alias_pattern(), alias))
    } else {
        None
    }
}

/// Judges an alias, given what the alias pattern says of it.
pub fn judge_alias(alias: &str, matched: Option<bool>) -> (r: Result<(), AliasError>)
    ensures
        outcome_view(r) == alias_verdict(alias@, alias.len() as nat, matched),
{
    if alias.is_empty() {
        return Err(AliasError::Empty);
    }
    if alias.len() > 64 {
        return Err(AliasError::TooLong(alias.len()));
    }
    match matched {
        None => {
            return Err(AliasError::PatternRejected);
        },
        Some(false) => {
            let mut a = String::new();
            push_str(&mut a, alias);
            proof {
                assert(Seq::<char>::empty() + alias@ =~= alias@);
            }
            return Err(AliasError::Invalid(a));
        },
        Some(true) => {},
    }
    let chars = chars_of(alias);
    let hyphens = chars_of("--");
    if contains_substring(chars.as_slice(), hyphens.as_slice()) {
        return Err(AliasError::ConsecutiveHyphens);
    }
    Ok(())
}

/// Checks an instance alias: not empty, at most 64 bytes, lower-case letters,
/// digits and hyphens starting and ending with a letter or digit, and no
/// `--`.
pub fn validate_alias(alias: &str) -> (r: Result<(), AliasError>)
    ensures
        outcome_view(r) == alias_verdict(alias@, alias.len() as nat, alias_match(alias@)),
        outcome_view(r) == alias_verdict(alias@, alias.len() as nat, Some(is_lower_hyphen_name(alias@))),
        r is Ok <==> is_lower_hyphen_name(alias@) && alias.len() <= 64 && !has_substring(alias@, "--"@),
{
    if alias.is_empty() || alias.len() > 64 {
        return judge_alias(alias, None);
    }
    let pattern = "^[a-z0-9]([a-z0-9\\-]*[a-z0-9])?$";
    if !regex_compiles(pattern) {
        return judge_alias(alias, None);
    }
    let matched = regex_is_match(pattern, alias);
    judge_alias(alias, Some(matched))
}

impl AliasError {
    /// The message shown for the error.
    pub fn message(&self) -> (m: String)
        ensures
            self@ matches AliasFault::Empty ==> m@ == "alias cannot be empty"@,
            self@ matches AliasFault::TooLong(n) ==> m@ == "alias must be 64 characters or fewer (got "@ + decimal(n) + ")"@,
            self@ matches AliasFault::Invalid(a) ==> m@ == "alias '"@ + a + "' is invalid. Must match [a-z0-9][a-z0-9-]*[a-z0-9], start and end with alphanumeric, contain only lowercase letters, digits, and hyphens."@,
            self@ matches AliasFault::ConsecutiveHyphens ==> m@ == "alias cannot contain consecutive hyphens"@,
            self@ matches AliasFault::PatternRejected ==> m@ == "alias pattern failed to compile"@,
    {
        let mut m = String::new();
        match self {
            AliasError::Empty => push_str(&mut m, "alias cannot be empty"),
            AliasError::TooLong(n) => {
                push_str(&mut m, "alias must be 64 characters or fewer (got ");
                push_decimal(&mut m, *n as u64);
                push_str(&mut m, ")");
            },
            AliasError::Invalid(a) => {
                push_str(&mut m, "alias '");
                push_str(&mut m, a.as_str());
                push_str(&mut m, "' is invalid. Must match [a-z0-9][a-z0-9-]*[a-z0-9], start and end with alphanumeric, contain only lowercase letters, digits, and hyphens.");
            },
            AliasError::ConsecutiveHyphens => push_str(&mut m, "alias cannot contain consecutive hyphens"),
            AliasError::PatternRejected => push_str(&mut m, "alias pattern failed to compile"),
        }
        proof {
            assert(Seq::<char>::empty() + m@ =~= m@);
        }
        m
    }
}

} // verus!
