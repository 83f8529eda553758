//! The environment an installer, or an installed program, runs in.

use vstd::prelude::*;

use crate::instance::layout::{lemma_layout_dirs_within_root, subdir_names, InstanceLayout};
use crate::path::{components, join, within};
use crate::text::{chars_of, push_str, string_of};

verus! {

/// Runs installers inside an instance.
pub struct InstallerExecutor;

/// A variable name and its value.
pub type EnvSpec = (Seq<char>, Seq<char>);

/// The environment of instance with root `root` and alias `alias`: its home,
/// XDG and temporary directories, and its name and root.
pub open spec fn instance_env(root: Seq<char>, alias: Seq<char>) -> Seq<EnvSpec> {
    seq![
        ("HOME"@, join(root, "home"@)),
        ("XDG_CONFIG_HOME"@, join(root, "config"@)),
        ("XDG_CACHE_HOME"@, join(root, "cache"@)),
        ("XDG_DATA_HOME"@, join(root, "data"@)),
        ("XDG_STATE_HOME"@, join(root, "state"@)),
        ("XDG_RUNTIME_DIR"@, join(root, "runtime"@)),
        ("TMPDIR"@, join(root, "tmp"@)),
        ("WARREN_INSTANCE"@, alias),
        ("WARREN_INSTANCE_DIR"@, root),
    ]
}

/// The variables as plain values.
pub open spec fn env_views(vars: Seq<(String, String)>) -> Seq<EnvSpec> {
    vars.map_values(|v: (String, String)| (v.0@, v.1@))
}

/// A variable and its value.
fn var(name: &str, value: String) -> (v: (String, String))
    ensures
        v.0@ == name@,
        v.1@ == value@,
{
    (string_of(chars_of(name).as_slice()), value)
}

impl InstallerExecutor {
    /// The variables set for a program running in `layout`'s instance.
    pub fn environment(layout: &InstanceLayout) -> (vars: Vec<(String, String)>)
        ensures
            env_views(vars@) == instance_env(layout.root@, layout.alias@),
    {
        let mut vars: Vec<(String, String)> = Vec::new();
        vars.push(var("HOME", layout.home_dir()));
        vars.push(var("XDG_CONFIG_HOME", layout.config_dir()));
        vars.push(var("XDG_CACHE_HOME", layout.cache_dir()));
        vars.push(var("XDG_DATA_HOME", layout.data_dir()));
        vars.push(var("XDG_STATE_HOME", layout.state_dir()));
        vars.push(var("XDG_RUNTIME_DIR", layout.runtime_dir()));
        vars.push(var("TMPDIR", layout.tmp_dir()));
        vars.push(var("WARREN_INSTANCE", string_of(chars_of(layout.alias.as_str()).as_slice())));
        vars.push(var("WARREN_INSTANCE_DIR", string_of(chars_of(layout.root.as_str()).as_slice())));
        proof {
            assert(env_views(vars@) =~= instance_env(layout.root@, layout.alias@));
        }
        vars
    }

    /// The `PATH` for an installer: the instance's `bin` directory before
    /// `current_path`.
    pub fn build_path(layout: &InstanceLayout, current_path: &str) -> (p: String)
        ensures
            p@ == join(layout.root@, "bin"@) + seq![':'] + current_path@,
    {
        let mut p = layout.bin_dir();
        p.push(':');
        push_str(&mut p, current_path);
        p
    }
}

/// Law: every directory an instance's environment names lies within the
/// instance root; in particular `HOME`, `XDG_CONFIG_HOME`, `XDG_DATA_HOME`
/// and `TMPDIR` are overridden to point inside it.
pub proof fn lemma_environment_within_root(root: Seq<char>, alias: Seq<char>)
    ensures
        forall|i: int| 0 <= i < instance_env(root, alias).len() && i != 7 ==> within(
            #[trigger] instance_env(root, alias)[i].1,
            root,
        ),
        instance_env(root, alias)[0].0 == "HOME"@,
        instance_env(root, alias)[1].0 == "XDG_CONFIG_HOME"@,
        instance_env(root, alias)[3].0 == "XDG_DATA_HOME"@,
        instance_env(root, alias)[6].0 == "TMPDIR"@,
{
    lemma_layout_dirs_within_root(root);
    let names = subdir_names();
    assert(within(join(root, names[1]), root));
    assert(within(join(root, names[2]), root));
    assert(within(join(root, names[3]), root));
    assert(within(join(root, names[4]), root));
    assert(within(join(root, names[5]), root));
    assert(within(join(root, names[6]), root));
    assert(within(join(root, names[7]), root));
    assert(components(root) =~= components(root).subrange(0, components(root).len() as int));
}

} // verus!
