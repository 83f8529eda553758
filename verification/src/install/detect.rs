//! Finding the program an installer put into an instance, and its version.

use vstd::prelude::*;

use crate::foreign::{regex_capture_group1, regex_compiles, regex_first_group};
use crate::text::{byte_len, chars_of, lines, split_lines, string_of, views};

verus! {

/// The length `str::len` reports for text `s`: its UTF-8 byte count.
pub open spec fn str_len(s: Seq<char>) -> usize {
    byte_len(s) as usize
}

/// Whether `i` is the first position of a shortest name: no name is
/// shorter, and every name before it is longer.
pub open spec fn is_first_shortest(names: Seq<Seq<char>>, i: int) -> bool {
    &&& 0 <= i < names.len()
    &&& forall|j: int| 0 <= j < names.len() ==> str_len(names[i]) <= str_len(#[trigger] names[j])
    &&& forall|j: int| 0 <= j < i ==> str_len(#[trigger] names[j]) > str_len(names[i])
}

/// The names as plain values.
pub open spec fn name_views(names: Seq<String>) -> Seq<Seq<char>> {
    names.map_values(|s: String| s@)
}

/// The binary an instance runs, among the executables found in its `bin`
/// directory (in directory order): the first of the shortest names, or
/// none when there are none.
pub fn choose_binary(names: &Vec<String>) -> (b: Option<String>)
    ensures
        names@.len() == 0 ==> b is None,
        names@.len() > 0 ==> (b matches Some(s) && exists|i: int|
            is_first_shortest(name_views(names@), i) && #[trigger] name_views(names@)[i] == s@),
{
    let n = names.len();
    if n == 0 {
        return None;
    }
    let ghost nv = name_views(names@);
    let mut best: usize = 0;
    let mut best_len: usize = names[0].as_str().len();
    let mut i: usize = 1;
    proof {
        assert(nv[0] == names@[0]@);
    }
    while i < n
        invariant
            n == names@.len(),
            nv == name_views(names@),
            1 <= i <= n,
            0 <= best < i,
            best_len == str_len(nv[best as int]),
            forall|j: int| 0 <= j < i ==> str_len(nv[best as int]) <= str_len(#[trigger] nv[j]),
            forall|j: int| 0 <= j < best ==> str_len(#[trigger] nv[j]) > str_len(nv[best as int]),
        decreases n - i,
    {
        let len_i = names[i].as_str().len();
        proof {
            assert(nv[i as int] == names@[i as int]@);
        }
        if len_i < best_len {
            best = i;
            best_len = len_i;
        }
        i = i + 1;
    }
    let s = string_of(chars_of(names[best].as_str()).as_slice());
    proof {
        assert(nv[best as int] == names@[best as int]@);
        assert(is_first_shortest(nv, best as int));
    }
    Some(s)
}

/// Whether a Unix file mode lets anyone execute the file.
pub open spec fn spec_is_executable(mode: u32) -> bool {
    mode & 0o111 != 0
}

/// Whether a Unix file mode lets anyone execute the file.
pub fn is_executable(mode: u32) -> (b: bool)
    ensures
        b == spec_is_executable(mode),
{
    mode & 0o111 != 0
}

/// The pattern of a version number: an optional `v`, then a numeral with
/// two or three dot-separated parts and an optional `-` suffix, captured.
pub open spec fn version_pattern() -> Seq<char> {
    "v?(\\d+\\.\\d+(?:\\.\\d+)?(?:-[a-zA-Z0-9.]+)?)"@
}

/// The version found in `text`: on its first line, the captured part of the
/// first match of the version pattern. `None` when the text has no line or
/// the line has no version.
pub open spec fn spec_extract_version(text: Seq<char>) -> Option<Seq<char>> {
    if lines(text).len() == 0 {
        None
    } else {
        regex_first_group(version_pattern(), lines(text)[0])
    }
}

/// The version string a program printed, as `--version` output usually
/// shows it.
pub fn extract_version_string(text: &str) -> (v: Option<String>)
    ensures
        match v {
            Some(s) => spec_extract_version(text@) == Some(s@),
            None => spec_extract_version(text@) is None,
        },
{
    let pattern = "v?(\\d+\\.\\d+(?:\\.\\d+)?(?:-[a-zA-Z0-9.]+)?)";
    if !regex_compiles(pattern) {
        return None;
    }
    let chars = chars_of(text);
    let ls = split_lines(chars.as_slice());
    if ls.len() == 0 {
        return None;
    }
    let first = string_of(ls[0].as_slice());
    proof {
        assert(views(ls@)[0] == ls@[0]@);
    }
    regex_capture_group1(pattern, first.as_str())
}

/// The flags a program is asked for its version with, in the order they are
/// tried.
pub open spec fn version_flag_list() -> Seq<Seq<char>> {
    seq!["--version"@, "-v"@, "-V"@, "version"@]
}

/// The flags a program is asked for its version with, in order.
pub fn version_flags() -> (f: Vec<&'static str>)
    ensures
        f@.map_values(|s: &str| s@) == version_flag_list(),
{
    let f = vec!["--version", "-v", "-V", "version"];
    proof {
        assert(f@.map_values(|s: &str| s@) =~= version_flag_list());
    }
    f
}

/// The version that one run of a program reports: none when the run failed,
/// else the version on the first line of its standard output, else the one
/// on the first line of its standard error.
pub open spec fn spec_version_from_outputs(success: bool, stdout: Seq<char>, stderr: Seq<char>) -> Option<
    Seq<char>,
> {
    if !success {
        None
    } else if spec_extract_version(stdout) is Some {
        spec_extract_version(stdout)
    } else {
        spec_extract_version(stderr)
    }
}

/// The version that one run of a program reports, from whether it
/// succeeded and what it printed.
pub fn version_from_outputs(success: bool, stdout: &str, stderr: &str) -> (v: Option<String>)
    ensures
        match v {
            Some(s) => spec_version_from_outputs(success, stdout@, stderr@) == Some(s@),
            None => spec_version_from_outputs(success, stdout@, stderr@) is None,
        },
{
    if !success {
        return None;
    }
    match extract_version_string(stdout) {
        Some(v) => Some(v),
        None => extract_version_string(stderr),
    }
}

} // verus!
