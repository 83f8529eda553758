use warren::install::download::{extract_url_from_pipe, installer_hash, parse_source, SourceInfo};

#[test]
fn piped_curl_command_is_remote_script() {
    let info = parse_source("curl -fsSL https://opencode.ai/install | bash");
    match info {
        SourceInfo::RemoteScript { url, original } => {
            assert_eq!(url, "https://opencode.ai/install");
            assert_eq!(original, "curl -fsSL https://opencode.ai/install | bash");
        }
        other => panic!("unexpected {:?}", other),
    }
}

#[test]
fn surrounding_whitespace_is_trimmed() {
    let info = parse_source("  \t curl -sL http://example.com/x.sh | sh \n");
    match info {
        SourceInfo::RemoteScript { url, original } => {
            assert_eq!(url, "http://example.com/x.sh");
            assert_eq!(original, "curl -sL http://example.com/x.sh | sh");
        }
        other => panic!("unexpected {:?}", other),
    }
}

#[test]
fn plain_url_is_remote_script() {
    match parse_source("https://example.com/install.sh") {
        SourceInfo::RemoteScript { url, original } => {
            assert_eq!(url, "https://example.com/install.sh");
            assert_eq!(original, "https://example.com/install.sh");
        }
        other => panic!("unexpected {:?}", other),
    }
}

#[test]
fn pipe_without_url_falls_through() {
    match parse_source("./install.sh | bash") {
        SourceInfo::LocalScript { path } => assert_eq!(path, "./install.sh | bash"),
        other => panic!("unexpected {:?}", other),
    }
    match parse_source("cat ./install.sh | bash") {
        SourceInfo::Package { name } => assert_eq!(name, "cat ./install.sh | bash"),
        other => panic!("unexpected {:?}", other),
    }
    match parse_source("echo hi | tee out") {
        SourceInfo::Package { name } => assert_eq!(name, "echo hi | tee out"),
        other => panic!("unexpected {:?}", other),
    }
}

#[test]
fn local_scripts() {
    for s in ["./install.sh", "/opt/setup", "setup.sh"] {
        match parse_source(s) {
            SourceInfo::LocalScript { path } => assert_eq!(path, s),
            other => panic!("unexpected {:?}", other),
        }
    }
}

#[test]
fn package_names() {
    match parse_source("gh") {
        SourceInfo::Package { name } => assert_eq!(name, "gh"),
        other => panic!("unexpected {:?}", other),
    }
    match parse_source("") {
        SourceInfo::Package { name } => assert_eq!(name, ""),
        other => panic!("unexpected {:?}", other),
    }
}

#[test]
fn url_after_flag_and_first_url_wins() {
    assert_eq!(extract_url_from_pipe("curl -L https://a.example/x | bash").as_deref(), Some("https://a.example/x"));
    assert_eq!(
        extract_url_from_pipe("wget -qO- http://first.example https://second.example | sh").as_deref(),
        Some("http://first.example")
    );
    assert_eq!(extract_url_from_pipe("curl https://x.example/a|sh").as_deref(), Some("https://x.example/a"));
    assert_eq!(extract_url_from_pipe("bash | curl https://after.example"), None);
    assert_eq!(extract_url_from_pipe("curl -fsSL ftp://nope | sh"), None);
    assert_eq!(extract_url_from_pipe(""), None);
}

#[test]
fn installer_hash_is_sha256_hex() {
    assert_eq!(
        installer_hash(b""),
        "sha256:e3b0c44298fc1c149afbf4c8996fb92427ae41e4649b934ca495991b7852b855"
    );
    assert_eq!(
        installer_hash(b"abc"),
        "sha256:ba7816bf8f01cfea414140de5dae2223b00361a396177a9cb410ff61f20015ad"
    );
}
