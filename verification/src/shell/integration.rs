//! Which startup file of a shell to extend, and with what line.

use vstd::prelude::*;

use super::detect::{ShellKind, ShellType};
use crate::path::{join, join_path};
use crate::text::{chars_of, contains_substring, has_substring, push_str, string_of};

verus! {

/// Why shell integration cannot be installed.
#[derive(Debug, Clone)]
pub enum ShellError {
    /// The shell, named, has no known startup file.
    Unsupported(String),
}

impl ShellError {
    /// `unsupported shell 'NAME' for shell integration`.
    pub fn message(&self) -> (m: String)
        ensures
            self matches ShellError::Unsupported(name) ==> m@ == "unsupported shell '"@ + name@
                + "' for shell integration"@,
    {
        let mut m = String::new();
        match self {
            ShellError::Unsupported(name) => {
                push_str(&mut m, "unsupported shell '");
                push_str(&mut m, name.as_str());
                push_str(&mut m, "' for shell integration");
            },
        }
        proof {
            assert(Seq::<char>::empty() + m@ =~= m@);
        }
        m
    }
}

/// The line that puts `dir` first on a shell's `PATH`.
pub open spec fn path_line(k: ShellKind, dir: Seq<char>) -> Seq<char> {
    match k {
        ShellKind::Fish => "fish_add_path "@ + dir,
        ShellKind::Nushell => "$env.PATH = ($env.PATH | prepend \""@ + dir + "\")"@,
        _ => "export PATH=\""@ + dir + ":$PATH\""@,
    }
}

/// The line that puts `bin_dir` first on `shell`'s `PATH`.
pub fn get_path_line(shell: &ShellType, bin_dir: &str) -> (line: String)
    ensures
        line@ == path_line(shell@, bin_dir@),
{
    let mut line = String::new();
    match shell {
        ShellType::Fish => {
            push_str(&mut line, "fish_add_path ");
            push_str(&mut line, bin_dir);
        },
        ShellType::Nushell => {
            push_str(&mut line, "$env.PATH = ($env.PATH | prepend \"");
            push_str(&mut line, bin_dir);
            push_str(&mut line, "\")");
        },
        _ => {
            push_str(&mut line, "export PATH=\"");
            push_str(&mut line, bin_dir);
            push_str(&mut line, ":$PATH\"");
        },
    }
    proof {
        assert(Seq::<char>::empty() + line@ =~= line@);
    }
    line
}

/// The `.bashrc` in home directory `home`.
pub fn bashrc_path(home: &str) -> (p: String)
    ensures
        p@ == join(home@, ".bashrc"@),
{
    join_path(home, ".bashrc")
}

/// The startup file to extend for shell `k` with home `home`: for bash the
/// `.bashrc` when it exists, else `.bash_profile`.
pub open spec fn rc_file(k: ShellKind, home: Seq<char>, bashrc_exists: bool) -> Result<Seq<char>, Seq<char>> {
    match k {
        ShellKind::Bash => if bashrc_exists {
            Ok(join(home, ".bashrc"@))
        } else {
            Ok(join(home, ".bash_profile"@))
        },
        ShellKind::Zsh => Ok(join(home, ".zshrc"@)),
        ShellKind::Fish => Ok(join(join(join(home, ".config"@), "fish"@), "config.fish"@)),
        ShellKind::Nushell => Ok(join(join(join(home, ".config"@), "nushell"@), "env.nu"@)),
        ShellKind::Sh => Ok(join(home, ".profile"@)),
        ShellKind::Unknown(name) => Err(name),
    }
}

/// The startup file of `shell` under home directory `home`, given whether
/// `home/.bashrc` exists.
pub fn get_rc_file(shell: &ShellType, home: &str, bashrc_exists: bool) -> (r: Result<String, ShellError>)
    ensures
        match r {
            Ok(p) => rc_file(shell@, home@, bashrc_exists) == Ok::<Seq<char>, Seq<char>>(p@),
            Err(ShellError::Unsupported(name)) => rc_file(shell@, home@, bashrc_exists) == Err::<Seq<char>, Seq<char>>(name@),
        },
{
    match shell {
        ShellType::Bash => if bashrc_exists {
            Ok(join_path(home, ".bashrc"))
        } else {
            Ok(join_path(home, ".bash_profile"))
        },
        ShellType::Zsh => Ok(join_path(home, ".zshrc")),
        ShellType::Fish => {
            let c = join_path(home, ".config");
            let f = join_path(c.as_str(), "fish");
            Ok(join_path(f.as_str(), "config.fish"))
        },
        ShellType::Nushell => {
            let c = join_path(home, ".config");
            let f = join_path(c.as_str(), "nushell");
            Ok(join_path(f.as_str(), "env.nu"))
        },
        ShellType::Sh => Ok(join_path(home, ".profile")),
        ShellType::Unknown(name) => Err(ShellError::Unsupported(string_of(chars_of(name.as_str()).as_slice()))),
    }
}

/// What to append to a startup file with content `existing` (`None` when
/// the file does not exist): nothing when it already mentions warren or
/// holds `line`, else a marker comment line and `line`.
pub open spec fn integration_addition(existing: Option<Seq<char>>, line: Seq<char>) -> Option<Seq<char>> {
    if existing matches Some(c) && (has_substring(c, "# warren"@) || has_substring(c, line)) {
        None
    } else {
        Some("\n# warren — CLI instance runtime\n"@ + line + "\n"@)
    }
}

/// The content of an optional text.
pub open spec fn text_view(t: Option<&str>) -> Option<Seq<char>> {
    match t {
        Some(s) => Some(s@),
        None => None,
    }
}

/// The text to append to a startup file so that it runs `line`, or `None`
/// when the file is already set up.
pub fn integration_text(existing: Option<&str>, line: &str) -> (t: Option<String>)
    ensures
        match t {
            Some(s) => integration_addition(text_view(existing), line@) == Some(s@),
            None => integration_addition(text_view(existing), line@) is None,
        },
{
    if let Some(content) = existing {
        let c = chars_of(content);
        let marker = chars_of("# warren");
        let l = chars_of(line);
        if contains_substring(c.as_slice(), marker.as_slice()) || contains_substring(c.as_slice(), l.as_slice()) {
            return None;
        }
    }
    let mut t = String::new();
    push_str(&mut t, "\n# warren — CLI instance runtime\n");
    push_str(&mut t, line);
    push_str(&mut t, "\n");
    proof {
        assert(Seq::<char>::empty() + "\n# warren — CLI instance runtime\n"@ =~= "\n# warren — CLI instance runtime\n"@);
    }
    Some(t)
}


/// Law: installing shell integration twice adds nothing the second time.
/// Once the addition is appended to a startup file, that file needs nothing
/// more.
pub proof fn lemma_integration_idempotent(existing: Option<Seq<char>>, line: Seq<char>)
    ensures
        integration_addition(existing, line) matches Some(t) ==> integration_addition(
            Some(
                match existing {
                    Some(c) => c,
                    None => Seq::<char>::empty(),
                } + t,
            ),
            line,
        ) is None,
{
    if let Some(t) = integration_addition(existing, line) {
        let c = match existing {
            Some(c) => c,
            None => Seq::<char>::empty(),
        };
        let whole = c + t;
        let marker = "# warren"@;
        reveal_strlit("# warren");
        reveal_strlit("\n# warren — CLI instance runtime\n");
        let i: int = c.len() as int + 1;
        assert(whole.subrange(i, i + marker.len() as int) =~= marker);
        assert(has_substring(whole, marker));
    }
}

/// Law: every shell but fish and nushell (bash, zsh, sh, and any other)
/// gets the POSIX line `export PATH="DIR:$PATH"`; fish, and only fish, gets
/// `fish_add_path DIR`; nushell prepends DIR to `$env.PATH`. Every line
/// names the directory.
pub proof fn lemma_path_line_by_shell(k: ShellKind, dir: Seq<char>)
    ensures
        !(k is Fish) && !(k is Nushell) ==> path_line(k, dir) == "export PATH=\""@ + dir + ":$PATH\""@,
        k is Fish ==> path_line(k, dir) == "fish_add_path "@ + dir,
        k is Nushell ==> path_line(k, dir) == "$env.PATH = ($env.PATH | prepend \""@ + dir + "\")"@,
        "fish_add_path "@.is_prefix_of(path_line(k, dir)) ==> k is Fish,
        has_substring(path_line(k, dir), dir),
{
    reveal_strlit("fish_add_path ");
    reveal_strlit("export PATH=\"");
    reveal_strlit("$env.PATH = ($env.PATH | prepend \"");
    let l = path_line(k, dir);
    if "fish_add_path "@.is_prefix_of(l) {
        assert(l.subrange(0, 14) == "fish_add_path "@);
        assert(l.subrange(0, 14)[0] == l[0]);
        assert(l[0] == 'f');
        assert(!(k is Nushell)) by {
            if k is Nushell {
                assert(l[0] == '$');
            }
        }
        assert(k is Fish) by {
            if !(k is Fish) && !(k is Nushell) {
                assert(l[0] == 'e');
            }
        }
    }
    let (pre, start) = match k {
        ShellKind::Fish => ("fish_add_path "@, 14int),
        ShellKind::Nushell => ("$env.PATH = ($env.PATH | prepend \""@, 34int),
        _ => ("export PATH=\""@, 13int),
    };
    assert(pre.len() == start);
    assert(l.subrange(start, start + dir.len()) =~= dir);
}

} // verus!
