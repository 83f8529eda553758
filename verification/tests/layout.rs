use warren::instance::layout::{format_bytes, DiskUsage, InstanceLayout};
use warren::path::{join_path, path_starts_with};

#[test]
fn layout_directories() {
    let l = InstanceLayout::new("/home/u/.warren/instances", "gh-work");
    assert_eq!(l.root, "/home/u/.warren/instances/gh-work");
    assert_eq!(l.alias, "gh-work");
    assert_eq!(l.bin_dir(), "/home/u/.warren/instances/gh-work/bin");
    assert_eq!(l.home_dir(), "/home/u/.warren/instances/gh-work/home");
    assert_eq!(l.config_dir(), "/home/u/.warren/instances/gh-work/config");
    assert_eq!(l.cache_dir(), "/home/u/.warren/instances/gh-work/cache");
    assert_eq!(l.data_dir(), "/home/u/.warren/instances/gh-work/data");
    assert_eq!(l.state_dir(), "/home/u/.warren/instances/gh-work/state");
    assert_eq!(l.runtime_dir(), "/home/u/.warren/instances/gh-work/runtime");
    assert_eq!(l.tmp_dir(), "/home/u/.warren/instances/gh-work/tmp");
    assert_eq!(l.logs_dir(), "/home/u/.warren/instances/gh-work/logs");
    assert_eq!(l.installers_dir(), "/home/u/.warren/instances/gh-work/installers");
    assert_eq!(l.metadata_path(), "/home/u/.warren/instances/gh-work/metadata.toml");
    assert_eq!(l.launcher_path(), "/home/u/.warren/instances/gh-work/launcher");
    assert_eq!(l.all_dirs().len(), 10);
    assert_eq!(l.all_dirs()[9], "/home/u/.warren/instances/gh-work/installers");
}

#[test]
fn join_matches_std() {
    let cases = [("/a", "b"), ("/a/", "b"), ("", "b"), ("/a", "/b"), ("a", ""), ("x/y", "z.toml")];
    for (base, part) in cases {
        let expected = std::path::Path::new(base).join(part).to_string_lossy().into_owned();
        assert_eq!(join_path(base, part), expected, "{} + {}", base, part);
    }
}

#[test]
fn starts_with_matches_std() {
    let cases = [
        ("/a/b/c", "/a/b"),
        ("/a/bc", "/a/b"),
        ("/a//b/./c/", "/a/b"),
        ("a/b", "/a"),
        ("./a", "."),
        ("./a", "a"),
        ("a", ""),
        ("/", "/"),
        ("/a/../b", "/a"),
        (".", "./"),
        ("a/b", "a/b/"),
    ];
    for (p, b) in cases {
        let expected = std::path::Path::new(p).starts_with(b);
        assert_eq!(path_starts_with(p, b), expected, "{} within {}", p, b);
    }
}

#[test]
fn every_instance_directory_is_within_its_root() {
    let l = InstanceLayout::new("/srv/instances", "tool");
    for d in l.all_dirs() {
        assert!(path_starts_with(&d, &l.root));
    }
    assert!(l.validate_path_containment(&l.root, &l.bin_dir()).is_ok());
}

#[test]
fn instances_do_not_contain_each_other() {
    let a = InstanceLayout::new("/srv/instances", "app");
    let b = InstanceLayout::new("/srv/instances", "app2");
    assert!(!path_starts_with(&b.root, &a.root));
    assert!(!path_starts_with(&a.root, &b.root));
    assert!(!path_starts_with(&b.bin_dir(), &a.root));
}

#[test]
fn containment_error_names_both_paths() {
    let l = InstanceLayout::new("/srv", "x");
    let e = l.validate_path_containment("/srv/x", "/etc/passwd").unwrap_err();
    assert_eq!(e.path, "/etc/passwd");
    assert_eq!(e.root, "/srv/x");
    assert_eq!(e.message(), "path /etc/passwd is outside instance root /srv/x");
}

#[test]
fn disk_usage_total() {
    let u = DiskUsage { bin: 1, config: 2, cache: 3, data: 4, state: 5, home: 6, tmp: 7, logs: 8 };
    assert_eq!(u.total(), 36);
}

fn float_format(bytes: u64) -> String {
    const KB: u64 = 1024;
    const MB: u64 = 1024 * KB;
    const GB: u64 = 1024 * MB;
    if bytes >= GB {
        format!("{:.1} GB", bytes as f64 / GB as f64)
    } else if bytes >= MB {
        format!("{:.1} MB", bytes as f64 / MB as f64)
    } else if bytes >= KB {
        format!("{:.0} KB", bytes as f64 / KB as f64)
    } else {
        format!("{} B", bytes)
    }
}

#[test]
fn format_bytes_examples() {
    assert_eq!(format_bytes(0), "0 B");
    assert_eq!(format_bytes(1023), "1023 B");
    assert_eq!(format_bytes(1024), "1 KB");
    assert_eq!(format_bytes(1536), "2 KB");
    assert_eq!(format_bytes(2560), "2 KB");
    assert_eq!(format_bytes(1048576), "1.0 MB");
    assert_eq!(format_bytes(1073741824), "1.0 GB");
    assert_eq!(format_bytes(1342177280), "1.2 GB");
    assert_eq!(format_bytes(1879048192), "1.8 GB");
}

#[test]
fn format_bytes_agrees_with_float_formatting() {
    let mut values: Vec<u64> = vec![
        0, 1, 512, 1023, 1024, 1025, 1535, 1536, 1537, 2559, 2560, 2561, 1048575, 1048576,
        1048576 + 52428, 1048576 + 52429, 1073741823, 1073741824, 1073741824 + 53687091,
        1073741824 + 53687092, 1342177280, 1879048192, 1u64 << 53, (1u64 << 53) + 1,
        (1u64 << 53) + 3, (1u64 << 60) + 12345, u64::MAX, u64::MAX - 1024, u64::MAX / 3,
    ];
    for k in 0..64u32 {
        values.push(1u64 << k);
        values.push((1u64 << k).wrapping_sub(1));
    }
    let mut x: u64 = 0x9e3779b97f4a7c15;
    for _ in 0..20000 {
        x ^= x << 13;
        x ^= x >> 7;
        x ^= x << 17;
        values.push(x >> (x % 64));
    }
    for m in 1..2000u64 {
        values.push(m * 1024 * 1024 * 1024 / 20);
        values.push(m * 1024 * 1024 / 20);
        values.push(m * 512);
    }
    for v in values {
        assert_eq!(format_bytes(v), float_format(v), "bytes = {}", v);
    }
}
