//! What is recorded about an instance (`metadata.toml`).

use vstd::prelude::*;

use super::layout::InstanceLayout;
use crate::foreign::home_dir;
use crate::install::download::{SourceInfo, SourceSpec};
use crate::path::join;
use crate::text::{chars_of, copy_range, push_chars, starts_with, string_of};

verus! {

/// A point in time: seconds since the Unix epoch and nanoseconds.
#[derive(Debug, Clone, Copy, PartialEq, Eq, Structural)]
pub struct Timestamp {
    pub secs: i64,
    pub nanos: u32,
}

/// Everything recorded about an instance.
#[derive(Debug, Clone)]
pub struct InstanceMetadata {
    pub instance: InstanceInfo,
    pub install: InstallInfo,
    pub paths: PathsInfo,
}

/// The instance itself.
#[derive(Debug, Clone)]
pub struct InstanceInfo {
    pub alias: String,
    pub app_name: String,
    pub version: Option<String>,
    pub shell: String,
    pub created_at: Timestamp,
    pub updated_at: Timestamp,
}

/// How the instance was installed.
#[derive(Debug, Clone)]
pub struct InstallInfo {
    pub source: String,
    pub source_type: SourceType,
    pub installer_hash: Option<String>,
}

/// The kind of installer source.
#[derive(Debug, Clone, Copy, PartialEq, Eq, Structural)]
pub enum SourceType {
    RemoteScript,
    LocalScript,
    Package,
}

/// Where the instance's files are.
#[derive(Debug, Clone)]
pub struct PathsInfo {
    pub root: String,
    pub bin: String,
    pub launcher: String,
}

/// The name of a source kind, as stored and shown.
pub open spec fn source_type_name(t: SourceType) -> Seq<char> {
    match t {
        SourceType::RemoteScript => "remote_script"@,
        SourceType::LocalScript => "local_script"@,
        SourceType::Package => "package"@,
    }
}

/// The kind of a classified source.
pub open spec fn source_type_of(s: SourceSpec) -> SourceType {
    match s {
        SourceSpec::RemoteScript { .. } => SourceType::RemoteScript,
        SourceSpec::LocalScript { .. } => SourceType::LocalScript,
        SourceSpec::Package { .. } => SourceType::Package,
    }
}

impl SourceType {
    /// The name of the kind: `remote_script`, `local_script` or `package`.
    pub fn as_str(&self) -> (s: &'static str)
        ensures
            s@ == source_type_name(*self),
    {
        match self {
            SourceType::RemoteScript => "remote_script",
            SourceType::LocalScript => "local_script",
            SourceType::Package => "package",
        }
    }

    /// The kind of an installer source.
    pub fn of_source(info: &SourceInfo) -> (t: SourceType)
        ensures
            t == source_type_of(info@),
    {
        match info {
            SourceInfo::RemoteScript { .. } => SourceType::RemoteScript,
            SourceInfo::LocalScript { .. } => SourceType::LocalScript,
            SourceInfo::Package { .. } => SourceType::Package,
        }
    }
}

/// A path shown with the home directory `home` abbreviated to `~`.
pub open spec fn abbreviate_home(path: Seq<char>, home: Option<Seq<char>>) -> Seq<char> {
    match home {
        Some(h) => if h.is_prefix_of(path) {
            seq!['~'] + path.skip(h.len() as int)
        } else {
            path
        },
        None => path,
    }
}

/// Law: abbreviating the home directory loses nothing: putting the home
/// directory back in place of the `~` gives the path again.
pub proof fn lemma_abbreviation_reversible(path: Seq<char>, home: Seq<char>)
    requires
        home.is_prefix_of(path),
    ensures
        abbreviate_home(path, Some(home))[0] == '~',
        home + abbreviate_home(path, Some(home)).drop_first() == path,
{
    let a = abbreviate_home(path, Some(home));
    assert(a.drop_first() =~= path.skip(home.len() as int));
    assert(home + path.skip(home.len() as int) =~= path);
}

/// The content of an optional text.
pub open spec fn opt_text(t: Option<&str>) -> Option<Seq<char>> {
    match t {
        Some(s) => Some(s@),
        None => None,
    }
}

impl InstanceMetadata {
    /// `path` with the home directory `home`, when it begins the path,
    /// replaced by `~`.
    pub fn display_path_for_home(path: &str, home: Option<&str>) -> (s: String)
        ensures
            s@ == abbreviate_home(path@, opt_text(home)),
    {
        let p = chars_of(path);
        if let Some(h) = home {
            let hc = chars_of(h);
            if starts_with(p.as_slice(), hc.as_slice()) {
                let mut s = String::new();
                s.push('~');
                let rest = copy_range(p.as_slice(), hc.len(), p.len());
                push_chars(&mut s, rest.as_slice());
                proof {
                    assert(s@ =~= seq!['~'] + path@.skip(h@.len() as int));
                }
                return s;
            }
        }
        string_of(p.as_slice())
    }

    /// `path` with the user's home directory abbreviated to `~`.
    pub fn display_path(path: &str) -> (s: String)
        ensures
            s@ == path@ || exists|h: Seq<char>| h.len() > 0 && s@ == abbreviate_home(path@, Some(h)),
    {
        match home_dir() {
            Some(h) => InstanceMetadata::display_path_for_home(path, Some(h.as_str())),
            None => InstanceMetadata::display_path_for_home(path, None),
        }
    }

    /// The metadata of an instance just installed into `layout`.
    pub fn for_install(
        layout: &InstanceLayout,
        app_name: &str,
        version: Option<String>,
        shell: &str,
        now: Timestamp,
        source: &str,
        source_type: SourceType,
        installer_hash: Option<String>,
        launcher: &str,
    ) -> (m: InstanceMetadata)
        ensures
            m.instance.alias@ == layout.alias@,
            m.instance.app_name@ == app_name@,
            m.instance.version == version,
            m.instance.shell@ == shell@,
            m.instance.created_at == now,
            m.instance.updated_at == now,
            m.install.source@ == source@,
            m.install.source_type == source_type,
            m.install.installer_hash == installer_hash,
            m.paths.root@ == layout.root@,
            m.paths.bin@ == join(layout.root@, "bin"@),
            m.paths.launcher@ == launcher@,
    {
        InstanceMetadata {
            instance: InstanceInfo {
                alias: string_of(chars_of(layout.alias.as_str()).as_slice()),
                app_name: string_of(chars_of(app_name).as_slice()),
                version,
                shell: string_of(chars_of(shell).as_slice()),
                created_at: now,
                updated_at: now,
            },
            install: InstallInfo {
                source: string_of(chars_of(source).as_slice()),
                source_type,
                installer_hash,
            },
            paths: PathsInfo {
                root: string_of(chars_of(layout.root.as_str()).as_slice()),
                bin: layout.bin_dir(),
                launcher: string_of(chars_of(launcher).as_slice()),
            },
        }
    }

    /// Points the metadata at another instance: its alias, root and `bin`
    /// directory become those of `layout`; the rest is kept.
    pub fn retarget(&mut self, layout: &InstanceLayout)
        ensures
            final(self).instance.alias@ == layout.alias@,
            final(self).paths.root@ == layout.root@,
            final(self).paths.bin@ == join(layout.root@, "bin"@),
            final(self).paths.launcher == old(self).paths.launcher,
            final(self).instance.app_name == old(self).instance.app_name,
            final(self).instance.version == old(self).instance.version,
            final(self).instance.shell == old(self).instance.shell,
            final(self).instance.created_at == old(self).instance.created_at,
            final(self).instance.updated_at == old(self).instance.updated_at,
            final(self).install.source == old(self).install.source,
            final(self).install.source_type == old(self).install.source_type,
            final(self).install.installer_hash == old(self).install.installer_hash,
    {
        self.instance.alias = string_of(chars_of(layout.alias.as_str()).as_slice());
        self.paths.root = string_of(chars_of(layout.root.as_str()).as_slice());
        self.paths.bin = layout.bin_dir();
    }
}

} // verus!
