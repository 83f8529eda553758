use warren::shell::detect::{parse_shell_path, ShellType};
use warren::shell::integration::{bashrc_path, get_path_line, get_rc_file, integration_text, ShellError};

#[test]
fn shells_from_paths() {
    assert_eq!(parse_shell_path("/bin/bash"), ShellType::Bash);
    assert_eq!(parse_shell_path("/usr/bin/zsh"), ShellType::Zsh);
    assert_eq!(parse_shell_path("/usr/local/bin/fish"), ShellType::Fish);
    assert_eq!(parse_shell_path("/usr/bin/nu"), ShellType::Nushell);
    assert_eq!(parse_shell_path("nushell"), ShellType::Nushell);
    assert_eq!(parse_shell_path("/bin/sh"), ShellType::Sh);
    assert_eq!(parse_shell_path("/bin/dash"), ShellType::Sh);
    assert_eq!(parse_shell_path("/bin/tcsh"), ShellType::Unknown("tcsh".to_string()));
    assert_eq!(parse_shell_path("/bin/"), ShellType::Unknown(String::new()));
    assert_eq!(ShellType::Nushell.name(), "nushell");
    assert_eq!(ShellType::Unknown("ksh".to_string()).name(), "ksh");
}

#[test]
fn path_lines() {
    assert_eq!(get_path_line(&ShellType::Fish, "/h/.local/bin"), "fish_add_path /h/.local/bin");
    assert_eq!(
        get_path_line(&ShellType::Nushell, "/h/.local/bin"),
        "$env.PATH = ($env.PATH | prepend \"/h/.local/bin\")"
    );
    assert_eq!(get_path_line(&ShellType::Bash, "/h/.local/bin"), "export PATH=\"/h/.local/bin:$PATH\"");
    assert_eq!(get_path_line(&ShellType::Sh, "/b"), "export PATH=\"/b:$PATH\"");
}

#[test]
fn rc_files() {
    assert_eq!(get_rc_file(&ShellType::Bash, "/h", true).unwrap(), "/h/.bashrc");
    assert_eq!(get_rc_file(&ShellType::Bash, "/h", false).unwrap(), "/h/.bash_profile");
    assert_eq!(get_rc_file(&ShellType::Zsh, "/h", false).unwrap(), "/h/.zshrc");
    assert_eq!(get_rc_file(&ShellType::Fish, "/h", false).unwrap(), "/h/.config/fish/config.fish");
    assert_eq!(get_rc_file(&ShellType::Nushell, "/h", false).unwrap(), "/h/.config/nushell/env.nu");
    assert_eq!(get_rc_file(&ShellType::Sh, "/h", false).unwrap(), "/h/.profile");
    let e = get_rc_file(&ShellType::Unknown("csh".to_string()), "/h", false).unwrap_err();
    assert!(matches!(&e, ShellError::Unsupported(n) if n == "csh"));
    assert_eq!(e.message(), "unsupported shell 'csh' for shell integration");
    assert_eq!(bashrc_path("/h"), "/h/.bashrc");
}

#[test]
fn integration_is_added_once() {
    let line = "export PATH=\"/b:$PATH\"";
    let first = integration_text(None, line).unwrap();
    assert_eq!(first, "\n# warren — CLI instance runtime\nexport PATH=\"/b:$PATH\"\n");
    let existing = format!("alias ll='ls -l'\n{}", first);
    assert_eq!(integration_text(Some(&existing), line), None);
    assert_eq!(integration_text(Some("# warren\n"), line), None);
    assert_eq!(integration_text(Some(line), line), None);
    assert!(integration_text(Some("other\n"), line).is_some());
}
