//! Recognising the superuser from `/proc/self/status`, so that the runtime
//! can refuse to run as root.

use vstd::prelude::*;

use crate::text::{chars_of, lines, split_lines, split_whitespace, starts_with, tokens, views};

verus! {

/// Whether every character of `s` is an ASCII digit.
pub open spec fn all_digits(s: Seq<char>) -> bool {
    forall|i: int| 0 <= i < s.len() ==> '0' <= #[trigger] s[i] && s[i] <= '9'
}

/// The number that the decimal digits `s` write.
pub open spec fn digits_value(s: Seq<char>) -> nat
    decreases s.len(),
{
    if s.len() == 0 {
        0
    } else {
        digits_value(s.drop_last()) * 10 + ((s.last() as nat) - 48) as nat
    }
}

/// What `str::parse::<u32>` gives for `s`: an optional `+`, then one or more
/// decimal digits whose value fits in 32 bits.
pub open spec fn parse_u32(s: Seq<char>) -> Option<u32> {
    let d = if s.len() > 0 && s[0] == '+' {
        s.drop_first()
    } else {
        s
    };
    if d.len() > 0 && all_digits(d) && digits_value(d) <= u32::MAX {
        Some(digits_value(d) as u32)
    } else {
        None
    }
}

/// The decimal number in `s`, as `str::parse::<u32>` reads it.
pub fn parse_decimal_u32(s: &[char]) -> (r: Option<u32>)
    ensures
        r == parse_u32(s@),
{
    let n = s.len();
    let start: usize = if n > 0 && s[0] == '+' {
        1
    } else {
        0
    };
    let ghost d = if s@.len() > 0 && s@[0] == '+' {
        s@.drop_first()
    } else {
        s@
    };
    proof {
        assert(d =~= s@.skip(start as int));
    }
    if start == n {
        return None;
    }
    proof {
        assert(d.take(0) =~= Seq::<char>::empty());
    }
    let mut value: u64 = 0;
    let mut i: usize = start;
    while i < n
        invariant
            n == s@.len(),
            start <= i <= n,
            d == s@.skip(start as int),
            d.len() > 0,
            parse_u32(s@) == (if all_digits(d) && digits_value(d) <= u32::MAX {
                Some(digits_value(d) as u32)
            } else {
                None
            }),
            all_digits(d.take(i - start)),
            value == digits_value(d.take(i - start)),
            value <= u32::MAX,
        decreases n - i,
    {
        let c = s[i];
        if c < '0' || c > '9' {
            proof {
                assert(d[i - start] == c);
            }
            return None;
        }
        let digit: u64 = (c as u32 - 48) as u64;
        let next: u64 = value * 10 + digit;
        proof {
            let t = d.take(i + 1 - start);
            assert(t.drop_last() =~= d.take(i - start));
            assert(t.last() == c);
            assert(digits_value(t) == digits_value(d.take(i - start)) * 10 + ((c as nat) - 48) as nat);
        }
        if next > 4294967295 {
            proof {
                lemma_digits_value_prefix(d, i + 1 - start);
            }
            return None;
        }
        value = next;
        i = i + 1;
    }
    proof {
        assert(d.take(n - start) =~= d);
    }
    Some(value as u32)
}

/// A longer digit string is worth at least as much as its prefix.
proof fn lemma_digits_value_prefix(d: Seq<char>, k: int)
    requires
        0 <= k <= d.len(),
    ensures
        digits_value(d.take(k)) <= digits_value(d),
    decreases d.len() - k,
{
    if k < d.len() {
        lemma_digits_value_prefix(d, k + 1);
        let t = d.take(k + 1);
        assert(t.drop_last() =~= d.take(k));
        assert(digits_value(t) >= digits_value(d.take(k))) by (nonlinear_arith)
            requires
                digits_value(t) == digits_value(t.drop_last()) * 10 + ((t.last() as nat) - 48) as nat,
                t.drop_last() == d.take(k),
        ;
    } else {
        assert(d.take(k) =~= d);
    }
}

/// The first of `ls` that starts with `prefix`.
pub open spec fn first_with_prefix(ls: Seq<Seq<char>>, prefix: Seq<char>) -> Option<Seq<char>>
    decreases ls.len(),
{
    if ls.len() == 0 {
        None
    } else if prefix.is_prefix_of(ls[0]) {
        Some(ls[0])
    } else {
        first_with_prefix(ls.drop_first(), prefix)
    }
}

/// The effective user id in a `/proc/self/status` text: the third field of
/// the first line starting with `Uid:`, read as a number.
pub open spec fn status_euid(status: Seq<char>) -> Option<u32> {
    match first_with_prefix(lines(status), "Uid:"@) {
        Some(line) => if tokens(line).len() > 2 {
            parse_u32(tokens(line)[2])
        } else {
            None
        },
        None => None,
    }
}

/// The effective user id that a `/proc/self/status` text records.
pub fn euid_from_status(status: &str) -> (r: Option<u32>)
    ensures
        r == status_euid(status@),
{
    let chars = chars_of(status);
    let ls = split_lines(chars.as_slice());
    let prefix = chars_of("Uid:");
    let ghost lv = lines(status@);
    let n = ls.len();
    let mut i: usize = 0;
    proof {
        assert(lv.skip(0) =~= lv);
    }
    while i < n
        invariant
            n == ls@.len(),
            views(ls@) == lv,
            lv == lines(status@),
            0 <= i <= n,
            first_with_prefix(lv, "Uid:"@) == first_with_prefix(lv.skip(i as int), "Uid:"@),
            prefix@ == "Uid:"@,
        decreases n - i,
    {
        proof {
            assert(views(ls@)[i as int] == ls@[i as int]@);
            assert(lv.skip(i as int)[0] == lv[i as int]);
            assert(lv.skip(i as int).drop_first() =~= lv.skip(i + 1));
        }
        if starts_with(ls[i].as_slice(), prefix.as_slice()) {
            let fields = split_whitespace(ls[i].as_slice());
            if fields.len() > 2 {
                proof {
                    assert(views(fields@)[2] == fields@[2]@);
                }
                return parse_decimal_u32(fields[2].as_slice());
            }
            return None;
        }
        i = i + 1;
    }
    proof {
        assert(lv.skip(n as int) =~= Seq::<Seq<char>>::empty());
    }
    None
}

/// Whether a `/proc/self/status` text says the process runs as root
/// (effective user id 0); `None` when the text holds no readable id, so
/// that no caller concludes "not root" without one.
pub fn is_root_status(status: &str) -> (r: Option<bool>)
    ensures
        match status_euid(status@) {
            Some(euid) => r == Some(euid == 0),
            None => r is None,
        },
{
    match euid_from_status(status) {
        Some(euid) => Some(euid == 0),
        None => None,
    }
}

} // verus!
