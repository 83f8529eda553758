//! Recognising a shell from the path of its program.

use vstd::prelude::*;

use crate::text::{char_index, chars_eq, chars_of, copy_range, lemma_char_index, lemma_char_index_at, string_of};

verus! {

/// A shell that the runtime knows how to configure, or another one, named.
#[derive(Debug, Clone)]
pub enum ShellType {
    Bash,
    Zsh,
    Fish,
    Nushell,
    Sh,
    Unknown(String),
}

/// The abstract content of a [`ShellType`].
pub enum ShellKind {
    Bash,
    Zsh,
    Fish,
    Nushell,
    Sh,
    Unknown(Seq<char>),
}

impl View for ShellType {
    type V = ShellKind;

    open spec fn view(&self) -> ShellKind {
        match self {
            ShellType::Bash => ShellKind::Bash,
            ShellType::Zsh => ShellKind::Zsh,
            ShellType::Fish => ShellKind::Fish,
            ShellType::Nushell => ShellKind::Nushell,
            ShellType::Sh => ShellKind::Sh,
            ShellType::Unknown(name) => ShellKind::Unknown(name@),
        }
    }
}

impl PartialEq for ShellType {
    fn eq(&self, other: &ShellType) -> (r: bool) {
        match (self, other) {
            (ShellType::Bash, ShellType::Bash) => true,
            (ShellType::Zsh, ShellType::Zsh) => true,
            (ShellType::Fish, ShellType::Fish) => true,
            (ShellType::Nushell, ShellType::Nushell) => true,
            (ShellType::Sh, ShellType::Sh) => true,
            (ShellType::Unknown(a), ShellType::Unknown(b)) => *a == *b,
            _ => false,
        }
    }
}

impl vstd::std_specs::cmp::PartialEqSpecImpl for ShellType {
    open spec fn obeys_eq_spec() -> bool {
        true
    }

    open spec fn eq_spec(&self, other: &ShellType) -> bool {
        self@ == other@
    }
}

impl Eq for ShellType {
}

/// The name a shell is shown by.
pub open spec fn shell_name(k: ShellKind) -> Seq<char> {
    match k {
        ShellKind::Bash => "bash"@,
        ShellKind::Zsh => "zsh"@,
        ShellKind::Fish => "fish"@,
        ShellKind::Nushell => "nushell"@,
        ShellKind::Sh => "sh"@,
        ShellKind::Unknown(name) => name,
    }
}

impl ShellType {
    /// The name the shell is shown by.
    pub fn name(&self) -> (s: String)
        ensures
            s@ == shell_name(self@),
    {
        match self {
            ShellType::Bash => string_of(chars_of("bash").as_slice()),
            ShellType::Zsh => string_of(chars_of("zsh").as_slice()),
            ShellType::Fish => string_of(chars_of("fish").as_slice()),
            ShellType::Nushell => string_of(chars_of("nushell").as_slice()),
            ShellType::Sh => string_of(chars_of("sh").as_slice()),
            ShellType::Unknown(name) => string_of(chars_of(name.as_str()).as_slice()),
        }
    }
}

/// The part of `s` after its last `c` (all of `s` when there is none): the
/// first item that `str::rsplit(c)` yields.
pub open spec fn after_last(s: Seq<char>, c: char) -> Seq<char>
    decreases s.len(),
{
    let k = char_index(s, c);
    proof {
        lemma_char_index(s, c);
    }
    if k < s.len() {
        after_last(s.skip(k + 1int), c)
    } else {
        s
    }
}

/// The shell a program file name stands for.
pub open spec fn shell_of_name(name: Seq<char>) -> ShellKind {
    if name == "bash"@ {
        ShellKind::Bash
    } else if name == "zsh"@ {
        ShellKind::Zsh
    } else if name == "fish"@ {
        ShellKind::Fish
    } else if name == "nu"@ || name == "nushell"@ {
        ShellKind::Nushell
    } else if name == "sh"@ || name == "dash"@ {
        ShellKind::Sh
    } else {
        ShellKind::Unknown(name)
    }
}

/// Whether `name` is the literal `lit`.
fn is_name(name: &[char], lit: &str) -> (b: bool)
    ensures
        b == (name@ == lit@),
{
    let l = chars_of(lit);
    chars_eq(name, l.as_slice())
}

/// The shell named by the last component of a shell program's path, such as
/// the value of `$SHELL`.
pub fn parse_shell_path(path: &str) -> (sh: ShellType)
    ensures
        sh@ == shell_of_name(after_last(path@, '/')),
{
    let chars = chars_of(path);
    let n = chars.len();
    let mut start: usize = 0;
    proof {
        assert(chars@.skip(0) =~= chars@);
    }
    loop
        invariant
            n == chars@.len(),
            0 <= start <= n,
            after_last(path@, '/') == after_last(chars@.skip(start as int), '/'),
            chars@ == path@,
        ensures
            0 <= start <= n,
            after_last(path@, '/') == chars@.skip(start as int),
        decreases n - start,
    {
        let mut j: usize = start;
        while j < n && chars[j] != '/'
            invariant
                n == chars@.len(),
                start <= j <= n,
                forall|k: int| start <= k < j ==> chars@[k] != '/',
            decreases n - j,
        {
            j = j + 1;
        }
        let ghost t = chars@.skip(start as int);
        proof {
            assert forall|k: int| 0 <= k < j - start implies t[k] != '/' by {
                assert(t[k] == chars@[k + start]);
            }
            if j < n {
                assert(t[j - start] == chars@[j as int]);
            }
            lemma_char_index_at(t, '/', j - start);
        }
        if j < n {
            proof {
                assert(t.skip(j - start + 1) =~= chars@.skip(j + 1));
            }
            start = j + 1;
        } else {
            proof {
                assert(after_last(t, '/') == t);
            }
            break;
        }
    }
    let name = copy_range(chars.as_slice(), start, n);
    proof {
        assert(name@ =~= chars@.skip(start as int));
    }
    let ns = name.as_slice();
    if is_name(ns, "bash") {
        ShellType::Bash
    } else if is_name(ns, "zsh") {
        ShellType::Zsh
    } else if is_name(ns, "fish") {
        ShellType::Fish
    } else if is_name(ns, "nu") || is_name(ns, "nushell") {
        ShellType::Nushell
    } else if is_name(ns, "sh") || is_name(ns, "dash") {
        ShellType::Sh
    } else {
        ShellType::Unknown(string_of(ns))
    }
}

} // verus!
