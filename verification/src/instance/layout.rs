//! Where an instance keeps its files, and how sizes are shown.

use vstd::prelude::*;

use crate::path::{
    components, is_plain_name, join, join_path, lemma_components_join, lemma_join_within,
    path_starts_with, within,
};
use crate::text::{decimal, digit_char, push_decimal, push_str};

verus! {

/// The directory tree of one instance: `root` is the instances directory
/// joined with the alias.
#[derive(Debug, Clone)]
pub struct InstanceLayout {
    pub root: String,
    pub alias: String,
}

/// The names of the directories an instance owns, besides its metadata and
/// launcher files.
pub open spec fn subdir_names() -> Seq<Seq<char>> {
    seq![
        "bin"@,
        "home"@,
        "config"@,
        "cache"@,
        "data"@,
        "state"@,
        "runtime"@,
        "tmp"@,
        "logs"@,
        "installers"@,
    ]
}

impl InstanceLayout {
    /// The layout of instance `alias` under `instances_dir`.
    pub fn new(instances_dir: &str, alias: &str) -> (l: InstanceLayout)
        ensures
            l.root@ == join(instances_dir@, alias@),
            l.alias@ == alias@,
    {
        let root = join_path(instances_dir, alias);
        let mut name = String::new();
        push_str(&mut name, alias);
        proof {
            assert(Seq::<char>::empty() + alias@ =~= alias@);
        }
        InstanceLayout { root, alias: name }
    }

    /// Executables installed into the instance.
    pub fn bin_dir(&self) -> (p: String)
        ensures
            p@ == join(self.root@, "bin"@),
    {
        join_path(self.root.as_str(), "bin")
    }

    /// The instance's `$HOME`.
    pub fn home_dir(&self) -> (p: String)
        ensures
            p@ == join(self.root@, "home"@),
    {
        join_path(self.root.as_str(), "home")
    }

    /// The instance's `$XDG_CONFIG_HOME`.
    pub fn config_dir(&self) -> (p: String)
        ensures
            p@ == join(self.root@, "config"@),
    {
        join_path(self.root.as_str(), "config")
    }

    /// The instance's `$XDG_CACHE_HOME`.
    pub fn cache_dir(&self) -> (p: String)
        ensures
            p@ == join(self.root@, "cache"@),
    {
        join_path(self.root.as_str(), "cache")
    }

    /// The instance's `$XDG_DATA_HOME`.
    pub fn data_dir(&self) -> (p: String)
        ensures
            p@ == join(self.root@, "data"@),
    {
        join_path(self.root.as_str(), "data")
    }

    /// The instance's `$XDG_STATE_HOME`.
    pub fn state_dir(&self) -> (p: String)
        ensures
            p@ == join(self.root@, "state"@),
    {
        join_path(self.root.as_str(), "state")
    }

    /// The instance's `$XDG_RUNTIME_DIR`.
    pub fn runtime_dir(&self) -> (p: String)
        ensures
            p@ == join(self.root@, "runtime"@),
    {
        join_path(self.root.as_str(), "runtime")
    }

    /// The instance's `$TMPDIR`.
    pub fn tmp_dir(&self) -> (p: String)
        ensures
            p@ == join(self.root@, "tmp"@),
    {
        join_path(self.root.as_str(), "tmp")
    }

    /// Logs of the instance.
    pub fn logs_dir(&self) -> (p: String)
        ensures
            p@ == join(self.root@, "logs"@),
    {
        join_path(self.root.as_str(), "logs")
    }

    /// The installer scripts, original and rewritten.
    pub fn installers_dir(&self) -> (p: String)
        ensures
            p@ == join(self.root@, "installers"@),
    {
        join_path(self.root.as_str(), "installers")
    }

    /// The instance's metadata file.
    pub fn metadata_path(&self) -> (p: String)
        ensures
            p@ == join(self.root@, "metadata.toml"@),
    {
        join_path(self.root.as_str(), "metadata.toml")
    }

    /// The instance's launcher script.
    pub fn launcher_path(&self) -> (p: String)
        ensures
            p@ == join(self.root@, "launcher"@),
    {
        join_path(self.root.as_str(), "launcher")
    }

    /// The directories to create for a new instance, in creation order.
    pub fn all_dirs(&self) -> (dirs: Vec<String>)
        ensures
            dirs@.len() == subdir_names().len(),
            forall|i: int| 0 <= i < dirs@.len() ==> #[trigger] dirs@[i]@ == join(self.root@, subdir_names()[i]),
    {
        let mut dirs: Vec<String> = Vec::new();
        dirs.push(self.bin_dir());
        dirs.push(self.home_dir());
        dirs.push(self.config_dir());
        dirs.push(self.cache_dir());
        dirs.push(self.data_dir());
        dirs.push(self.state_dir());
        dirs.push(self.runtime_dir());
        dirs.push(self.tmp_dir());
        dirs.push(self.logs_dir());
        dirs.push(self.installers_dir());
        dirs
    }

    /// Checks that `canonical_path` lies within `canonical_root`, the
    /// canonical forms of a path and of this instance's root.
    pub fn validate_path_containment(&self, canonical_root: &str, canonical_path: &str) -> (r: Result<(), ContainmentError>)
        ensures
            r is Ok <==> within(canonical_path@, canonical_root@),
            r matches Err(e) ==> e.path@ == canonical_path@ && e.root@ == canonical_root@,
    {
        if path_starts_with(canonical_path, canonical_root) {
            Ok(())
        } else {
            let mut path = String::new();
            push_str(&mut path, canonical_path);
            let mut root = String::new();
            push_str(&mut root, canonical_root);
            proof {
                assert(Seq::<char>::empty() + canonical_path@ =~= canonical_path@);
                assert(Seq::<char>::empty() + canonical_root@ =~= canonical_root@);
            }
            Err(ContainmentError { path, root })
        }
    }
}

/// A path found outside an instance's root.
#[derive(Debug, Clone)]
pub struct ContainmentError {
    pub path: String,
    pub root: String,
}

impl ContainmentError {
    /// `path P is outside instance root R`.
    pub fn message(&self) -> (m: String)
        ensures
            m@ == "path "@ + self.path@ + " is outside instance root "@ + self.root@,
    {
        let mut m = String::new();
        push_str(&mut m, "path ");
        push_str(&mut m, self.path.as_str());
        push_str(&mut m, " is outside instance root ");
        push_str(&mut m, self.root.as_str());
        proof {
            assert(Seq::<char>::empty() + "path "@ =~= "path "@);
        }
        m
    }
}

/// Law: every directory an instance hands out lies within its root.
pub proof fn lemma_layout_dirs_within_root(root: Seq<char>)
    ensures
        forall|i: int| 0 <= i < subdir_names().len() ==> within(join(root, #[trigger] subdir_names()[i]), root),
        within(join(root, "metadata.toml"@), root),
        within(join(root, "launcher"@), root),
{
    reveal_strlit("bin");
    reveal_strlit("home");
    reveal_strlit("config");
    reveal_strlit("cache");
    reveal_strlit("data");
    reveal_strlit("state");
    reveal_strlit("runtime");
    reveal_strlit("tmp");
    reveal_strlit("logs");
    reveal_strlit("installers");
    reveal_strlit("metadata.toml");
    reveal_strlit("launcher");
    assert forall|i: int| 0 <= i < subdir_names().len() implies within(join(root, #[trigger] subdir_names()[i]), root) by {
        let n = subdir_names()[i];
        assert(n.len() > 0 && n != seq!['.']) by {
            if n == seq!['.'] {
                assert(n.len() == 1);
            }
        }
        assert(!n.contains('/'));
        lemma_join_within(root, n);
    }
    assert(!"metadata.toml"@.contains('/'));
    assert("metadata.toml"@ != seq!['.']) by {
        assert("metadata.toml"@.len() != 1);
    }
    lemma_join_within(root, "metadata.toml"@);
    assert(!"launcher"@.contains('/'));
    assert("launcher"@ != seq!['.']) by {
        assert("launcher"@.len() != 1);
    }
    lemma_join_within(root, "launcher"@);
}


/// Law: instances with different names are isolated. For plain names
/// `a != b` under the same instances directory, no directory of instance
/// `a` lies within the root of instance `b`.
pub proof fn lemma_instances_isolated(instances_dir: Seq<char>, a: Seq<char>, b: Seq<char>)
    requires
        is_plain_name(a),
        is_plain_name(b),
        a != b,
    ensures
        !within(join(instances_dir, a), join(instances_dir, b)),
        forall|i: int| 0 <= i < subdir_names().len() ==> !within(
            join(join(instances_dir, a), #[trigger] subdir_names()[i]),
            join(instances_dir, b),
        ),
{
    lemma_components_join(instances_dir, a);
    lemma_components_join(instances_dir, b);
    let c = components(instances_dir);
    let ca = c + seq![a];
    let cb = c + seq![b];
    if cb.is_prefix_of(ca) {
        assert(ca.subrange(0, cb.len() as int) =~= ca);
        assert(ca[c.len() as int] == cb[c.len() as int]);
    }
    assert forall|i: int| 0 <= i < subdir_names().len() implies !within(
        join(join(instances_dir, a), #[trigger] subdir_names()[i]),
        join(instances_dir, b),
    ) by {
        reveal_strlit("bin");
        reveal_strlit("home");
        reveal_strlit("config");
        reveal_strlit("cache");
        reveal_strlit("data");
        reveal_strlit("state");
        reveal_strlit("runtime");
        reveal_strlit("tmp");
        reveal_strlit("logs");
        reveal_strlit("installers");
        let n = subdir_names()[i];
        assert(n.len() > 0 && n != seq!['.']) by {
            if n == seq!['.'] {
                assert(n.len() == 1);
            }
        }
        assert(!n.contains('/'));
        lemma_components_join(join(instances_dir, a), n);
        let cn = ca + seq![n];
        if cb.is_prefix_of(cn) {
            assert(cn.subrange(0, cb.len() as int)[c.len() as int] == cn[c.len() as int]);
            assert(cn[c.len() as int] == a);
        }
    }
}

/// Bytes used by each directory of an instance.
#[derive(Debug, Clone, Copy)]
pub struct DiskUsage {
    pub bin: u64,
    pub config: u64,
    pub cache: u64,
    pub data: u64,
    pub state: u64,
    pub home: u64,
    pub tmp: u64,
    pub logs: u64,
}

impl DiskUsage {
    /// The sum of the directory sizes.
    pub open spec fn spec_total(&self) -> int {
        self.bin + self.config + self.cache + self.data + self.state + self.home + self.tmp
            + self.logs
    }

    /// The bytes used by all directories together.
    pub fn total(&self) -> (t: u64)
        requires
            self.spec_total() <= u64::MAX,
        ensures
            t == self.spec_total(),
    {
        self.bin + self.config + self.cache + self.data + self.state + self.home + self.tmp
            + self.logs
    }
}

// ---------------------------------------------------------------------
// Human-readable sizes
// ---------------------------------------------------------------------

/// Two to the power `e`.
pub open spec fn pow2(e: nat) -> nat
    decreases e,
{
    if e == 0 {
        1
    } else {
        2 * pow2((e - 1) as nat)
    }
}

/// `num / den` rounded to the nearest integer, ties to the even one.
pub open spec fn round_half_even(num: nat, den: nat) -> nat {
    let q = num / den;
    let r = num % den;
    if 2 * r > den || (2 * r == den && q % 2 == 1) {
        q + 1
    } else {
        q
    }
}

/// `n` rounded to 53 significant bits, looking from scale `2^s` up: the
/// value of `n as f64`, ties to even.
pub open spec fn f64_round_from(n: nat, s: nat) -> nat
    decreases 64 - s,
{
    if s >= 64 {
        n
    } else if n / pow2(s) < pow2(53) {
        round_half_even(n, pow2(s)) * pow2(s)
    } else {
        f64_round_from(n, s + 1)
    }
}

/// The value of `n as f64` for a 64-bit unsigned `n`.
pub open spec fn as_f64(n: nat) -> nat {
    f64_round_from(n, 0)
}

/// `t` tenths written with one decimal: `{:.1}` of `t / 10`.
pub open spec fn one_decimal(t: nat) -> Seq<char> {
    decimal(t / 10) + seq!['.', digit_char(t % 10)]
}

/// A size as `format_bytes` shows it: whole bytes below 1 KiB, whole KiB
/// below 1 MiB, and tenths of MiB or GiB above, each rounded the way `{:.0}`
/// and `{:.1}` round the `f64` quotient (to nearest, ties to even).
pub open spec fn spec_format_bytes(bytes: nat) -> Seq<char> {
    if bytes >= 1073741824 {
        one_decimal(round_half_even(as_f64(bytes) * 10, 1073741824)) + " GB"@
    } else if bytes >= 1048576 {
        one_decimal(round_half_even(bytes * 10, 1048576)) + " MB"@
    } else if bytes >= 1024 {
        decimal(round_half_even(bytes, 1024)) + " KB"@
    } else {
        decimal(bytes) + " B"@
    }
}

/// `num / den` rounded to nearest, ties to even.
fn round_half_even_exec(num: u128, den: u128) -> (r: u128)
    requires
        den > 0,
        num / den < u128::MAX,
    ensures
        r == round_half_even(num as nat, den as nat),
{
    let q = num / den;
    let rem = num % den;
    if rem > den - rem || (rem == den - rem && q % 2 == 1) {
        q + 1
    } else {
        q
    }
}

/// `pow2` grows: one more step doubles it.
proof fn lemma_pow2_step(e: nat)
    ensures
        pow2(e + 1) == 2 * pow2(e),
        pow2(e) >= 1,
    decreases e,
{
    if e > 0 {
        lemma_pow2_step((e - 1) as nat);
    }
}

/// The value of `n as f64`, computed exactly.
fn f64_value(n: u64) -> (v: u128)
    ensures
        v == as_f64(n as nat),
        v <= 18446744073709551616,
{
    let big: u128 = 9007199254740992;
    let x: u128 = n as u128;
    let mut p: u128 = 1;
    let ghost mut s: nat = 0;
    proof {
        assert(pow2(53) == 9007199254740992) by {
            reveal_with_fuel(pow2, 54);
        }
        assert(pow2(0) == 1);
    }
    while x / p >= big
        invariant
            big == pow2(53),
            big == 9007199254740992,
            x == n as u128,
            p == pow2(s),
            1 <= p <= 2048,
            s <= 11,
            f64_round_from(x as nat, s) == as_f64(x as nat),
        decreases 12 - s,
    {
        proof {
            assert(x >= p * big) by (nonlinear_arith)
                requires
                    x / p >= big,
                    p >= 1,
            ;
            assert(p < 2048) by (nonlinear_arith)
                requires
                    x >= p * big,
                    x < 18446744073709551616,
                    big == 9007199254740992,
            ;
            lemma_pow2_step(s);
            assert(s < 11) by {
                if s >= 11 {
                    assert(pow2(11) == 2048) by {
                        reveal_with_fuel(pow2, 12);
                    }
                    lemma_pow2_mono(11, s);
                }
            }
            assert(p <= 1024) by {
                assert(pow2(10) == 1024) by {
                    reveal_with_fuel(pow2, 11);
                }
                lemma_pow2_mono(s, 10);
            }
        }
        p = p * 2;
        proof {
            s = s + 1;
        }
    }
    proof {
        lemma_pow2_step(s);
        assert(f64_round_from(x as nat, s) == round_half_even(x as nat, p as nat) * p);
    }
    let q = round_half_even_exec(x, p);
    proof {
        assert(q <= x / p + 1);
        assert(q * p <= 18446744073709551616) by (nonlinear_arith)
            requires
                q <= x / p + 1,
                x / p < big,
                x < 18446744073709551616,
                p >= 1,
                p <= 2048,
                big == 9007199254740992,
        ;
    }
    q * p
}

/// `pow2` is monotone.
proof fn lemma_pow2_mono(a: nat, b: nat)
    requires
        a <= b,
    ensures
        pow2(a) <= pow2(b),
    decreases b - a,
{
    if a < b {
        lemma_pow2_mono(a, (b - 1) as nat);
        lemma_pow2_step((b - 1) as nat);
    }
}

/// Appends `t / 10`, a point and the last digit of `t`.
fn push_one_decimal(out: &mut String, t: u64)
    ensures
        final(out)@ == old(out)@ + one_decimal(t as nat),
{
    push_decimal(out, t / 10);
    out.push('.');
    let d: u8 = (t % 10) as u8;
    out.push((d + 48u8) as char);
}

/// A byte count as a short human-readable size.
pub fn format_bytes(bytes: u64) -> (s: String)
    ensures
        s@ == spec_format_bytes(bytes as nat),
{
    let mut s = String::new();
    if bytes >= 1073741824 {
        let v = f64_value(bytes);
        let t = round_half_even_exec(v * 10, 1073741824);
        proof {
            assert(t <= 180000000000) by (nonlinear_arith)
                requires
                    t <= (v * 10) / 1073741824 + 1,
                    v <= 18446744073709551616,
            ;
        }
        push_one_decimal(&mut s, t as u64);
        push_str(&mut s, " GB");
    } else if bytes >= 1048576 {
        let t = round_half_even_exec((bytes as u128) * 10, 1048576);
        proof {
            assert(t <= 20000) by (nonlinear_arith)
                requires
                    t <= (bytes * 10) / 1048576 + 1,
                    bytes < 1073741824,
            ;
        }
        push_one_decimal(&mut s, t as u64);
        push_str(&mut s, " MB");
    } else if bytes >= 1024 {
        let k = round_half_even_exec(bytes as u128, 1024);
        proof {
            assert(k <= 2048) by (nonlinear_arith)
                requires
                    k <= bytes / 1024 + 1,
                    bytes < 1048576,
            ;
        }
        push_decimal(&mut s, k as u64);
        push_str(&mut s, " KB");
    } else {
        push_decimal(&mut s, bytes);
        push_str(&mut s, " B");
    }
    proof {
        assert(Seq::<char>::empty() + s@ =~= s@);
    }
    s
}

} // verus!
