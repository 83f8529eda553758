//! The launcher: a small shell script that runs an instance's program in
//! the instance's environment, installed under the alias's name.

use vstd::prelude::*;

use super::layout::InstanceLayout;
use crate::install::executor::{env_views, instance_env, EnvSpec, InstallerExecutor};
use crate::path::{join, join_path};
use crate::text::push_str;

verus! {

/// Writes, installs and removes launcher scripts.
pub struct Launcher;

/// The `export` lines for the variables `vars`, in order.
pub open spec fn export_lines(vars: Seq<EnvSpec>) -> Seq<char>
    decreases vars.len(),
{
    if vars.len() == 0 {
        seq![]
    } else {
        export_lines(vars.drop_last()) + "export "@ + vars.last().0 + "=\""@ + vars.last().1 + "\"\n"@
    }
}

/// The launcher script named `alias` of the instance with root `root` and
/// name `instance` for program `app_name`: a bash script that exports the
/// instance environment and runs the program from the instance's `bin`
/// directory with the script's arguments.
pub open spec fn launcher_script(root: Seq<char>, instance: Seq<char>, alias: Seq<char>, app_name: Seq<char>) -> Seq<char> {
    "#!/usr/bin/env bash\n# warren launcher for "@ + alias + "\n"@ + export_lines(instance_env(root, instance))
        + "exec \""@ + join(join(root, "bin"@), app_name) + "\" \"$@\"\n"@
}

impl Launcher {
    /// The launcher script for `alias`, running `app_name` in `layout`'s
    /// instance.
    pub fn generate(alias: &str, layout: &InstanceLayout, app_name: &str) -> (script: String)
        ensures
            script@ == launcher_script(layout.root@, layout.alias@, alias@, app_name@),
    {
        let vars = InstallerExecutor::environment(layout);
        let mut script = String::new();
        push_str(&mut script, "#!/usr/bin/env bash\n# warren launcher for ");
        push_str(&mut script, alias);
        push_str(&mut script, "\n");
        let ghost head = script@;
        let ghost env = instance_env(layout.root@, layout.alias@);
        let n = vars.len();
        let mut i: usize = 0;
        proof {
            assert(env.take(0) =~= Seq::<EnvSpec>::empty());
            assert(head + export_lines(env.take(0)) =~= head);
        }
        while i < n
            invariant
                n == vars@.len(),
                env_views(vars@) == env,
                0 <= i <= n,
                script@ == head + export_lines(env.take(i as int)),
            decreases n - i,
        {
            push_str(&mut script, "export ");
            push_str(&mut script, vars[i].0.as_str());
            push_str(&mut script, "=\"");
            push_str(&mut script, vars[i].1.as_str());
            push_str(&mut script, "\"\n");
            proof {
                assert(env_views(vars@)[i as int] == (vars@[i as int].0@, vars@[i as int].1@));
                assert(env.take(i + 1).drop_last() =~= env.take(i as int));
                assert(script@ =~= head + export_lines(env.take(i + 1)));
            }
            i = i + 1;
        }
        proof {
            assert(env.take(n as int) =~= env);
            assert(env.len() == n);
        }
        let bin = layout.bin_dir();
        let program = join_path(bin.as_str(), app_name);
        push_str(&mut script, "exec \"");
        push_str(&mut script, program.as_str());
        push_str(&mut script, "\" \"$@\"\n");
        proof {
            assert(script@ =~= launcher_script(layout.root@, layout.alias@, alias@, app_name@));
        }
        script
    }

    /// Where the launcher of `alias` is installed: the launcher directory
    /// joined with the alias.
    pub fn install_path(bin_dir: &str, alias: &str) -> (p: String)
        ensures
            p@ == join(bin_dir@, alias@),
    {
        join_path(bin_dir, alias)
    }
}

} // verus!
