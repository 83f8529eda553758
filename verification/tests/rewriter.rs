use warren::install::rewriter::{generate_diff, InstallerRewriter, RewriteError, RewriteResult};

fn rewriter() -> InstallerRewriter {
    InstallerRewriter::with_home("/w/instances/app", "/home/alice").expect("patterns compile")
}

#[test]
fn rewrites_system_and_home_locations() {
    let script = "install -m755 tool /usr/local/bin/tool\ncp cfg /home/alice/.config/tool\nmkdir -p ~/.cache/tool $HOME/x ${HOME}/y\n";
    let r = rewriter().rewrite(script);
    assert_eq!(
        r.content,
        "install -m755 tool /w/instances/app/bin/tool\ncp cfg /w/instances/app/config/tool\nmkdir -p /w/instances/app/cache/tool /w/instances/app/home/x /w/instances/app/home/y\n"
    );
    let descs: Vec<(&str, usize)> = r.changes.iter().map(|c| (c.description.as_str(), c.count)).collect();
    assert_eq!(
        descs,
        vec![
            ("/usr/local/bin → instance/bin", 1),
            ("~/.config → instance/config", 1),
            ("~/.cache → instance/cache", 1),
            ("${HOME} → instance/home", 1),
            ("$HOME → instance/home", 1),
        ]
    );
    assert_eq!(r.total_changes(), 5);
    assert!(r.has_changes());
}

#[test]
fn xdg_variables_with_and_without_braces() {
    let r = rewriter().rewrite("a=$XDG_CONFIG_HOME b=${XDG_DATA_HOME} c=$XDG_STATE_HOME/s d=${XDG_CACHE_HOME}");
    assert_eq!(
        r.content,
        "a=/w/instances/app/config b=/w/instances/app/data c=/w/instances/app/state/s d=/w/instances/app/cache"
    );
    assert_eq!(r.total_changes(), 4);
}

#[test]
fn counts_every_occurrence() {
    let r = rewriter().rewrite("/usr/bin/a /usr/bin/b /usr/bin/c");
    assert_eq!(r.content, "/w/instances/app/bin/a /w/instances/app/bin/b /w/instances/app/bin/c");
    assert_eq!(r.changes.len(), 1);
    assert_eq!(r.changes[0].count, 3);
}

#[test]
fn script_without_locations_is_unchanged() {
    let r = rewriter().rewrite("echo hello\n");
    assert_eq!(r.content, "echo hello\n");
    assert!(!r.has_changes());
    assert_eq!(r.total_changes(), 0);
}

#[test]
fn home_with_regex_characters_is_escaped() {
    let rw = InstallerRewriter::with_home("/i", "/home/a.b+c").unwrap();
    let r = rw.rewrite("/home/a.b+c/.local/bin/x /home/aXb+c/.local/bin/y");
    assert_eq!(r.content, "/i/bin/x /home/aXb+c/.local/bin/y");
}

#[test]
fn record_step() {
    let mut r = RewriteResult::unchanged("abc");
    r.record("rule", 0, "zzz".to_string());
    assert_eq!(r.content, "abc");
    assert!(!r.has_changes());
    r.record("rule", 2, "xbx".to_string());
    assert_eq!(r.content, "xbx");
    assert_eq!(r.changes.len(), 1);
    assert_eq!(r.changes[0].description, "rule");
    assert_eq!(r.total_changes(), 2);
}

#[test]
fn validate_refuses_traversal() {
    assert_eq!(InstallerRewriter::validate("cd ../x", "/i"), Err(RewriteError::PathTraversal));
    assert_eq!(InstallerRewriter::validate("cd ..\\x", "/i"), Err(RewriteError::PathTraversal));
    assert_eq!(InstallerRewriter::validate("echo ..", "/i"), Ok(()));
    assert_eq!(InstallerRewriter::validate("a.b/c", "/i"), Ok(()));
    assert_eq!(
        RewriteError::PathTraversal.message(),
        "installer contains path traversal sequences (../) which are not allowed"
    );
}

#[test]
fn diff_lists_changed_lines() {
    let d = generate_diff("a\nb\nc\n", "a\nB\nc\nextra\n");
    assert_eq!(d, "--- original\n+++ rewritten\n@@ line 2 @@\n-b\n+B\n");
    let same = generate_diff("x\r\ny\n", "x\r\ny\n");
    assert_eq!(same, "--- original\n+++ rewritten\n");
    let crlf = generate_diff("x\r\n", "x\n");
    assert_eq!(crlf, "--- original\n+++ rewritten\n");
    let ten: String = (1..=12).map(|i| format!("l{}\n", i)).collect();
    let ten2 = ten.replace("l11\n", "L11\n");
    assert_eq!(generate_diff(&ten, &ten2), "--- original\n+++ rewritten\n@@ line 11 @@\n-l11\n+L11\n");
}

#[test]
fn traversal_is_two_dots_then_a_separator() {
    for bad in ["cd ../etc", "x..\\y", "../", "a/../b", "...../"] {
        assert_eq!(InstallerRewriter::validate(bad, "/any"), Err(RewriteError::PathTraversal), "{}", bad);
    }
    for ok in ["ls ... ..", "", "..", "a.b./c", ". ./", "..x/"] {
        assert_eq!(InstallerRewriter::validate(ok, "/any"), Ok(()), "{}", ok);
    }
    assert_eq!(InstallerRewriter::validate("cd ../x", "/other"), InstallerRewriter::validate("cd ../x", "/i"));
}

#[test]
fn placeholder_home_when_none_is_found() {
    let rw = InstallerRewriter::for_home_dir("/i", None).expect("always built without a home");
    let r = rw.rewrite("cp x $HOME/.config/t\n");
    assert_eq!(r.content, "cp x /i/config/t\n");
    let with = InstallerRewriter::for_home_dir("/i", Some("/home/bob")).unwrap();
    assert_eq!(with.rewrite("/home/bob/.cache/z").content, "/i/cache/z");
    assert_eq!(with.rewrite("$HOME/.cache/z").content, "/i/home/.cache/z");
}

#[test]
fn long_home_with_meta_characters_still_builds() {
    let mut home = String::from("/home/a+b(c)[d]{e}^$|?*\\.");
    while home.chars().count() < 4096 {
        home.push('\u{10348}');
    }
    let home: String = home.chars().take(4096).collect();
    assert!(InstallerRewriter::with_home("/i", &home).is_some());
    assert!(InstallerRewriter::for_home_dir("/i", Some(home.as_str())).is_some());
    assert!(InstallerRewriter::new("/i").is_some());
}
