//! The runtime's configuration and where it lives.

use vstd::prelude::*;

use crate::foreign::home_dir;
use crate::path::{join, join_path};

verus! {

/// The whole configuration (`~/.warren/config.toml`).
#[derive(Debug, Clone)]
pub struct WarrenConfig {
    pub paths: PathsConfig,
    pub defaults: DefaultsConfig,
    pub ui: UiConfig,
}

/// Where instances and launchers go.
#[derive(Debug, Clone)]
pub struct PathsConfig {
    pub instances_dir: String,
    pub bin_dir: String,
}

/// Defaults for commands.
#[derive(Debug, Clone)]
pub struct DefaultsConfig {
    pub shell: String,
    pub confirm: bool,
    pub show_diff: bool,
}

/// Terminal output settings.
#[derive(Debug, Clone, Copy)]
pub struct UiConfig {
    pub color: bool,
    pub progress: bool,
}

/// The value of boolean settings that default to on.
pub fn default_true() -> (b: bool)
    ensures
        b,
{
    true
}

impl Default for DefaultsConfig {
    fn default() -> (d: DefaultsConfig)
        ensures
            d.shell@ == Seq::<char>::empty(),
            d.confirm,
            !d.show_diff,
    {
        DefaultsConfig { shell: String::new(), confirm: true, show_diff: false }
    }
}

impl Default for UiConfig {
    fn default() -> (u: UiConfig)
        ensures
            u.color,
            u.progress,
    {
        UiConfig { color: true, progress: true }
    }
}

/// The runtime's own directory under home directory `home`.
pub open spec fn warren_dir_of(home: Seq<char>) -> Seq<char> {
    join(home, ".warren"@)
}

impl PathsConfig {
    /// The default paths for home directory `home`: instances in
    /// `~/.warren/instances`, launchers in `~/.local/bin`.
    pub fn for_home(home: &str) -> (p: PathsConfig)
        ensures
            p.instances_dir@ == join(join(home@, ".warren"@), "instances"@),
            p.bin_dir@ == join(join(home@, ".local"@), "bin"@),
    {
        let w = join_path(home, ".warren");
        let l = join_path(home, ".local");
        PathsConfig { instances_dir: join_path(w.as_str(), "instances"), bin_dir: join_path(l.as_str(), "bin") }
    }

    /// The default paths for the user's home directory; `None` when it
    /// cannot be determined.
    pub fn default_paths() -> (p: Option<PathsConfig>)
        ensures
            p matches Some(c) ==> exists|home: Seq<char>|
                home.len() > 0 && c.instances_dir@ == join(join(home, ".warren"@), "instances"@)
                && c.bin_dir@ == join(join(home, ".local"@), "bin"@),
    {
        match home_dir() {
            Some(h) => Some(PathsConfig::for_home(h.as_str())),
            None => None,
        }
    }
}

impl WarrenConfig {
    /// The default configuration for home directory `home`.
    pub fn for_home(home: &str) -> (c: WarrenConfig)
        ensures
            c.paths.instances_dir@ == join(join(home@, ".warren"@), "instances"@),
            c.paths.bin_dir@ == join(join(home@, ".local"@), "bin"@),
            c.defaults.shell@ == Seq::<char>::empty(),
            c.defaults.confirm,
            !c.defaults.show_diff,
            c.ui.color,
            c.ui.progress,
    {
        WarrenConfig { paths: PathsConfig::for_home(home), defaults: DefaultsConfig::default(), ui: UiConfig::default() }
    }

    /// `~/.warren` for home directory `home`.
    pub fn warren_dir_for(home: &str) -> (d: String)
        ensures
            d@ == warren_dir_of(home@),
    {
        join_path(home, ".warren")
    }

    /// `~/.warren/config.toml` for home directory `home`.
    pub fn config_path_for(home: &str) -> (p: String)
        ensures
            p@ == join(warren_dir_of(home@), "config.toml"@),
    {
        let d = WarrenConfig::warren_dir_for(home);
        join_path(d.as_str(), "config.toml")
    }

    /// The runtime's own directory, `~/.warren`; `None` when the home
    /// directory cannot be determined.
    pub fn warren_dir() -> (d: Option<String>)
        ensures
            d matches Some(s) ==> exists|home: Seq<char>| home.len() > 0 && s@ == warren_dir_of(home),
    {
        match home_dir() {
            Some(h) => Some(WarrenConfig::warren_dir_for(h.as_str())),
            None => None,
        }
    }

    /// The configuration file, `~/.warren/config.toml`; `None` when the home
    /// directory cannot be determined.
    pub fn config_path() -> (p: Option<String>)
        ensures
            p matches Some(s) ==> exists|home: Seq<char>| home.len() > 0 && s@ == join(warren_dir_of(home), "config.toml"@),
    {
        match home_dir() {
            Some(h) => Some(WarrenConfig::config_path_for(h.as_str())),
            None => None,
        }
    }
}

} // verus!
