use warren::cli::{Command, ShellAction};
use warren::commands::{
    export_file_name, format_relative_time, import_target, instance_count, offer_diff, rewrite_summary,
};
use warren::config::{default_true, DefaultsConfig, PathsConfig, UiConfig, WarrenConfig};
use warren::install::detect::{
    choose_binary, extract_version_string, is_executable, version_flags, version_from_outputs,
};
use warren::install::download::parse_source;
use warren::install::executor::InstallerExecutor;
use warren::instance::launcher::Launcher;
use warren::instance::layout::InstanceLayout;
use warren::instance::metadata::{InstanceMetadata, SourceType, Timestamp};
use warren::text::{split_lines, split_whitespace, trim_chars};

#[test]
fn config_defaults() {
    assert!(default_true());
    let d = DefaultsConfig::default();
    assert_eq!(d.shell, "");
    assert!(d.confirm && !d.show_diff);
    let u = UiConfig::default();
    assert!(u.color && u.progress);
    let p = PathsConfig::for_home("/home/u");
    assert_eq!(p.instances_dir, "/home/u/.warren/instances");
    assert_eq!(p.bin_dir, "/home/u/.local/bin");
    let c = WarrenConfig::for_home("/home/u");
    assert_eq!(c.paths.bin_dir, "/home/u/.local/bin");
    assert_eq!(WarrenConfig::warren_dir_for("/home/u"), "/home/u/.warren");
    assert_eq!(WarrenConfig::config_path_for("/home/u"), "/home/u/.warren/config.toml");
}

#[test]
fn relative_times() {
    assert_eq!(format_relative_time(-5), "just now");
    assert_eq!(format_relative_time(59), "just now");
    assert_eq!(format_relative_time(60), "1 min ago");
    assert_eq!(format_relative_time(150), "2 mins ago");
    assert_eq!(format_relative_time(3600), "1 hour ago");
    assert_eq!(format_relative_time(86399), "23 hours ago");
    assert_eq!(format_relative_time(86400), "1 day ago");
    assert_eq!(format_relative_time(6 * 86400), "6 days ago");
    assert_eq!(format_relative_time(7 * 86400), "1 week ago");
    assert_eq!(format_relative_time(34 * 86400), "4 weeks ago");
    assert_eq!(format_relative_time(35 * 86400), "1 month ago");
    assert_eq!(format_relative_time(359 * 86400), "11 months ago");
    assert_eq!(format_relative_time(360 * 86400), "0 years ago");
    assert_eq!(format_relative_time(730 * 86400), "2 years ago");
}

#[test]
fn command_helpers() {
    assert_eq!(export_file_name("gh-work"), "gh-work.warren.tar.gz");
    assert!(offer_diff(false, false, true));
    assert!(offer_diff(false, true, false));
    assert!(!offer_diff(true, true, true));
    assert!(!offer_diff(false, false, false));
    assert_eq!(rewrite_summary(1), "Rewriting 1 path reference");
    assert_eq!(rewrite_summary(3), "Rewriting 3 path references");
    let dig = Command::Dig { source: "s".into(), alias: "a".into(), yes: false };
    assert!(dig.creates_instance());
    assert!(Command::Import { path: "p".into(), alias: None }.creates_instance());
    assert!(Command::Clone { source: "a".into(), dest: "b".into() }.creates_instance());
    assert!(!Command::Ls.creates_instance());
    assert!(!Command::Shell { action: ShellAction::Info }.creates_instance());
}

#[test]
fn binary_choice() {
    let names: Vec<String> = vec!["toolctl".into(), "tool".into(), "abcd".into(), "t-long".into()];
    assert_eq!(choose_binary(&names).as_deref(), Some("tool"));
    assert_eq!(choose_binary(&vec!["only".to_string()]).as_deref(), Some("only"));
    assert_eq!(choose_binary(&Vec::new()), None);
    assert!(is_executable(0o755));
    assert!(is_executable(0o001));
    assert!(!is_executable(0o644));
}

#[test]
fn versions() {
    assert_eq!(extract_version_string("gh version 2.40.1 (2023-12-13)\nmore").as_deref(), Some("2.40.1"));
    assert_eq!(extract_version_string("tool v1.2.3-beta.1").as_deref(), Some("1.2.3-beta.1"));
    assert_eq!(extract_version_string("no version here\n1.2"), None);
    assert_eq!(extract_version_string(""), None);
    assert_eq!(extract_version_string("release 10.4").as_deref(), Some("10.4"));
}

#[test]
fn environment_and_path() {
    let l = InstanceLayout::new("/i", "app");
    let env = InstallerExecutor::environment(&l);
    let pairs: Vec<(&str, &str)> = env.iter().map(|(k, v)| (k.as_str(), v.as_str())).collect();
    assert_eq!(
        pairs,
        vec![
            ("HOME", "/i/app/home"),
            ("XDG_CONFIG_HOME", "/i/app/config"),
            ("XDG_CACHE_HOME", "/i/app/cache"),
            ("XDG_DATA_HOME", "/i/app/data"),
            ("XDG_STATE_HOME", "/i/app/state"),
            ("XDG_RUNTIME_DIR", "/i/app/runtime"),
            ("TMPDIR", "/i/app/tmp"),
            ("WARREN_INSTANCE", "app"),
            ("WARREN_INSTANCE_DIR", "/i/app"),
        ]
    );
    assert_eq!(InstallerExecutor::build_path(&l, "/usr/bin:/bin"), "/i/app/bin:/usr/bin:/bin");
}

#[test]
fn launcher_script() {
    let l = InstanceLayout::new("/i", "app");
    let s = Launcher::generate("app", &l, "tool");
    assert!(s.starts_with("#!/usr/bin/env bash\n# warren launcher for app\n"));
    assert!(s.contains("export HOME=\"/i/app/home\"\n"));
    assert!(s.contains("export TMPDIR=\"/i/app/tmp\"\n"));
    assert!(s.ends_with("exec \"/i/app/bin/tool\" \"$@\"\n"));
    assert_eq!(Launcher::install_path("/h/.local/bin", "app"), "/h/.local/bin/app");
}

#[test]
fn metadata_helpers() {
    assert_eq!(InstanceMetadata::display_path_for_home("/home/u/x/y", Some("/home/u")), "~/x/y");
    assert_eq!(InstanceMetadata::display_path_for_home("/opt/x", Some("/home/u")), "/opt/x");
    assert_eq!(InstanceMetadata::display_path_for_home("/opt/x", None), "/opt/x");
    assert_eq!(SourceType::RemoteScript.as_str(), "remote_script");
    assert_eq!(SourceType::LocalScript.as_str(), "local_script");
    assert_eq!(SourceType::Package.as_str(), "package");
    assert_eq!(SourceType::of_source(&parse_source("./x.sh")), SourceType::LocalScript);
    let l = InstanceLayout::new("/i", "app");
    let now = Timestamp { secs: 100, nanos: 5 };
    let mut m = InstanceMetadata::for_install(
        &l, "tool", Some("1.0".into()), "bash", now, "gh", SourceType::Package, None, "/b/app",
    );
    assert_eq!(m.paths.bin, "/i/app/bin");
    assert_eq!(m.instance.alias, "app");
    let l2 = InstanceLayout::new("/i", "copy");
    m.retarget(&l2);
    assert_eq!(m.instance.alias, "copy");
    assert_eq!(m.paths.root, "/i/copy");
    assert_eq!(m.paths.bin, "/i/copy/bin");
    assert_eq!(m.paths.launcher, "/b/app");
    assert_eq!(m.instance.created_at, now);
}

#[test]
fn text_matches_std() {
    let samples = [
        "", " ", "a", " a b  c ", "\u{3000}x\u{85}", "x\r\ny\n", "x\ny", "x\r", "\n\n", "a\r\r\nb",
        "\t tabs\tand spaces \n",
    ];
    for s in samples {
        let chars: Vec<char> = s.chars().collect();
        let t: String = trim_chars(&chars).into_iter().collect();
        assert_eq!(t, s.trim());
        let words: Vec<String> = split_whitespace(&chars).into_iter().map(|w| w.into_iter().collect()).collect();
        let expected: Vec<String> = s.split_whitespace().map(|w| w.to_string()).collect();
        assert_eq!(words, expected);
        let ls: Vec<String> = split_lines(&chars).into_iter().map(|w| w.into_iter().collect()).collect();
        let expected: Vec<String> = s.lines().map(|w| w.to_string()).collect();
        assert_eq!(ls, expected, "lines of {:?}", s);
    }
}

#[test]
fn instance_count_wording() {
    assert_eq!(instance_count(0), "0 instances");
    assert_eq!(instance_count(1), "1 instance");
    assert_eq!(instance_count(2), "2 instances");
    assert_eq!(instance_count(12), "12 instances");
}

#[test]
fn import_target_choice() {
    assert_eq!(import_target("a", Some("b")), ("b".to_string(), true));
    assert_eq!(import_target("a", Some("a")), ("a".to_string(), false));
    assert_eq!(import_target("a", None), ("a".to_string(), false));
}

#[test]
fn version_from_one_run() {
    assert_eq!(version_flags(), vec!["--version", "-v", "-V", "version"]);
    assert_eq!(version_from_outputs(false, "tool 1.2.3\n", ""), None);
    assert_eq!(version_from_outputs(true, "tool 1.2.3\n", "v9.9.9"), Some("1.2.3".to_string()));
    assert_eq!(version_from_outputs(true, "no version here", "tool v2.0.1-beta\n"), Some("2.0.1-beta".to_string()));
    assert_eq!(version_from_outputs(true, "", ""), None);
}
