//! The command line: the commands the runtime understands.

use vstd::prelude::*;

verus! {

/// A parsed command line.
#[derive(Debug, Clone)]
pub struct Cli {
    pub command: Command,
}

/// A command and its arguments.
#[derive(Debug, Clone)]
pub enum Command {
    /// Install a new instance from a source, as `alias`.
    Dig { source: String, alias: String, yes: bool },
    /// Run an instance with arguments.
    Run { alias: String, args: Vec<String> },
    /// List the instances.
    Ls,
    /// Show an instance.
    Inspect { alias: String },
    /// Remove an instance.
    Rm { alias: String, yes: bool },
    /// Re-run an instance's installer.
    Update { alias: String, yes: bool },
    /// Copy an instance.
    Clone { source: String, dest: String },
    /// Write an instance to an archive.
    Export { alias: String, out: Option<String> },
    /// Read an instance from an archive.
    Import { path: String, alias: Option<String> },
    /// Show the runtime's environment.
    Env,
    /// Manage shell integration.
    Shell { action: ShellAction },
}

/// What to do with the shell integration.
#[derive(Debug, Clone, Copy, PartialEq, Eq, Structural)]
pub enum ShellAction {
    /// Put the launcher directory on the shell's `PATH`.
    Install,
    /// Show the detected shell.
    Info,
}

impl Command {
    /// Whether the command creates instances, so that the instances and
    /// launcher directories must exist first: `dig`, `clone` and `import`.
    pub fn creates_instance(&self) -> (b: bool)
        ensures
            b == (self is Dig || self is Clone || self is Import),
    {
        match self {
            Command::Dig { .. } | Command::Clone { .. } | Command::Import { .. } => true,
            _ => false,
        }
    }
}

} // verus!
