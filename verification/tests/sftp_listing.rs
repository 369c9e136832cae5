use ssh_manager::permissions::format_permissions;
use ssh_manager::path::{get_parent_path, join_path, last_segment, needs_home, resolve_path};
use ssh_manager::sftp::{build_listing, file_entry, stat_entry, FileAttrs, FileKind, RemoteEntry};

fn attrs(perm: Option<u32>, size: Option<u64>, mtime: Option<u64>) -> FileAttrs {
    FileAttrs { size, uid: None, gid: None, perm, atime: None, mtime }
}

fn remote(path: &str, perm: u32) -> RemoteEntry {
    RemoteEntry { path: path.to_string(), attrs: attrs(Some(perm), Some(1), Some(2)) }
}

#[test]
fn format_permissions_known_modes() {
    assert_eq!(format_permissions(0o755), "rwxr-xr-x");
    assert_eq!(format_permissions(0o644), "rw-r--r--");
    assert_eq!(format_permissions(0), "---------");
    assert_eq!(format_permissions(0o777), "rwxrwxrwx");
    assert_eq!(format_permissions(0o100640), "rw-r-----");
}

#[test]
fn format_permissions_is_one_to_one_below_512() {
    let mut seen: Vec<String> = Vec::new();
    for m in 0u32..512 {
        let s = format_permissions(m);
        assert_eq!(s.chars().count(), 9);
        assert!(!seen.contains(&s));
        assert_eq!(format_permissions(m | 0o100000), s);
        seen.push(s);
    }
    assert_eq!(seen.len(), 512);
}

#[test]
fn parent_path_examples() {
    assert_eq!(get_parent_path("/"), None);
    assert_eq!(get_parent_path(""), None);
    assert_eq!(get_parent_path("/a"), Some("/".to_string()));
    assert_eq!(get_parent_path("/a/b"), Some("/a".to_string()));
    assert_eq!(get_parent_path("/a/b/"), Some("/a".to_string()));
    assert_eq!(get_parent_path("a"), Some("/".to_string()));
    assert_eq!(get_parent_path("/home/user/docs"), Some("/home/user".to_string()));
}

#[test]
fn last_segment_examples() {
    assert_eq!(last_segment("/a/b"), Some("b".to_string()));
    assert_eq!(last_segment("/a/b//"), Some("b".to_string()));
    assert_eq!(last_segment("name"), Some("name".to_string()));
    assert_eq!(last_segment("/"), None);
    assert_eq!(last_segment(""), None);
    assert_eq!(last_segment("/tmp/é.txt"), Some("é.txt".to_string()));
}

#[test]
fn join_path_strips_trailing_slashes() {
    assert_eq!(join_path("/home/u", "f"), "/home/u/f");
    assert_eq!(join_path("/home/u//", "f"), "/home/u/f");
    assert_eq!(join_path("/", "f"), "/f");
    assert_eq!(join_path("", "f"), "/f");
}

#[test]
fn resolve_path_rules() {
    assert!(needs_home("~"));
    assert!(needs_home(""));
    assert!(needs_home("~/x"));
    assert!(!needs_home("/etc"));
    assert!(!needs_home("~x"));
    assert_eq!(resolve_path("~", Some("/home/u")), "/home/u");
    assert_eq!(resolve_path("", Some("/home/u")), "/home/u");
    assert_eq!(resolve_path("~", None), "/");
    assert_eq!(resolve_path("~/docs/a", Some("/home/u/")), "/home/u/docs/a");
    assert_eq!(resolve_path("~/docs", None), "~/docs");
    assert_eq!(resolve_path("/etc", Some("/home/u")), "/etc");
    assert_eq!(resolve_path("~x", Some("/home/u")), "~x");
}

#[test]
fn file_kind_follows_format_bits() {
    assert_eq!(attrs(Some(0o040755), None, None).kind(), FileKind::Directory);
    assert_eq!(attrs(Some(0o100644), None, None).kind(), FileKind::RegularFile);
    assert_eq!(attrs(Some(0o120777), None, None).kind(), FileKind::Symlink);
    assert_eq!(attrs(Some(0o010000), None, None).kind(), FileKind::NamedPipe);
    assert_eq!(attrs(Some(0o020000), None, None).kind(), FileKind::CharDevice);
    assert_eq!(attrs(Some(0o060000), None, None).kind(), FileKind::BlockDevice);
    assert_eq!(attrs(Some(0o140000), None, None).kind(), FileKind::Socket);
    assert_eq!(attrs(Some(0o644), None, None).kind(), FileKind::Other);
    assert_eq!(attrs(None, None, None).kind(), FileKind::Other);
    assert!(attrs(Some(0o040755), None, None).is_dir());
    assert!(!attrs(Some(0o100755), None, None).is_dir());
    assert!(!attrs(None, None, None).is_dir());
    assert!(attrs(Some(0o120777), None, None).is_symlink());
    assert!(!attrs(Some(0o040777), None, None).is_symlink());
}

#[test]
fn file_entry_from_attributes() {
    let e = file_entry(
        "notes.txt".to_string(),
        "/home/u/notes.txt".to_string(),
        &attrs(Some(0o100640), Some(1234), Some(1_700_000_000)),
    );
    assert_eq!(e.name, "notes.txt");
    assert_eq!(e.path, "/home/u/notes.txt");
    assert!(!e.is_dir);
    assert!(!e.is_symlink);
    assert_eq!(e.size, 1234);
    assert_eq!(e.permissions, "rw-r-----");
    assert_eq!(e.modified, Some(1_700_000_000));
}

#[test]
fn file_entry_without_attributes() {
    let e = file_entry("x".to_string(), "/x".to_string(), &attrs(None, None, None));
    assert_eq!(e.size, 0);
    assert_eq!(e.permissions, "---------");
    assert_eq!(e.modified, None);
    assert!(!e.is_dir);
    assert!(!e.is_symlink);
}

#[test]
fn file_entry_time_wraps_like_a_cast() {
    let e = file_entry("x".to_string(), "/x".to_string(), &attrs(None, None, Some(u64::MAX)));
    assert_eq!(e.modified, Some(-1));
    let e = file_entry("x".to_string(), "/x".to_string(), &attrs(None, None, Some(1u64 << 63)));
    assert_eq!(e.modified, Some(i64::MIN));
    let e = file_entry("x".to_string(), "/x".to_string(), &attrs(None, None, Some(i64::MAX as u64)));
    assert_eq!(e.modified, Some(i64::MAX));
}

#[test]
fn stat_entry_names_the_last_segment() {
    let e = stat_entry("/var/log/syslog", &attrs(Some(0o100644), Some(10), None));
    assert_eq!(e.name, "syslog");
    assert_eq!(e.path, "/var/log/syslog");
    let e = stat_entry("/var/log/", &attrs(Some(0o040755), None, None));
    assert_eq!(e.name, "log");
    assert_eq!(e.path, "/var/log/");
    assert!(e.is_dir);
    let e = stat_entry("/", &attrs(Some(0o040755), None, None));
    assert_eq!(e.name, "/");
    assert_eq!(e.path, "/");
}

#[test]
fn stat_of_a_fresh_empty_file() {
    let e = stat_entry("/tmp/new", &attrs(Some(0o100644), Some(0), Some(5)));
    assert_eq!(e.size, 0);
    assert!(!e.is_dir);
}

#[test]
fn listing_puts_directories_first_and_ignores_case() {
    let raw = vec![
        remote("/home/u/b.txt", 0o100644),
        remote("/home/u/Zeta", 0o040755),
        remote("/home/u/A.txt", 0o100644),
        remote("/home/u/alpha", 0o040755),
        remote("/home/u/C.txt", 0o100644),
    ];
    let r = build_listing("/home/u", &raw);
    let names: Vec<&str> = r.entries.iter().map(|e| e.name.as_str()).collect();
    assert_eq!(names, vec!["alpha", "Zeta", "A.txt", "b.txt", "C.txt"]);
    assert_eq!(r.current_path, "/home/u");
    assert_eq!(r.parent_path, Some("/home".to_string()));
    assert_eq!(r.entries[0].path, "/home/u/alpha");
    assert!(r.entries[0].is_dir);
    assert!(r.entries[1].is_dir);
    assert!(!r.entries[2].is_dir);
}

#[test]
fn listing_keeps_the_order_of_equal_names() {
    let raw = vec![
        RemoteEntry { path: "/d/README".to_string(), attrs: attrs(Some(0o100644), Some(1), None) },
        RemoteEntry { path: "/d/readme".to_string(), attrs: attrs(Some(0o100644), Some(2), None) },
        RemoteEntry { path: "/d/ReadMe".to_string(), attrs: attrs(Some(0o100644), Some(3), None) },
    ];
    let r = build_listing("/d/", &raw);
    let sizes: Vec<u64> = r.entries.iter().map(|e| e.size).collect();
    assert_eq!(sizes, vec![1, 2, 3]);
    assert_eq!(r.entries[1].path, "/d/readme");
    assert_eq!(r.current_path, "/d/");
    assert_eq!(r.parent_path, Some("/".to_string()));
}

#[test]
fn listing_skips_answers_without_a_name() {
    let raw = vec![remote("/", 0o040755), remote("", 0o100644), remote("/x/y", 0o100644)];
    let r = build_listing("/x", &raw);
    assert_eq!(r.entries.len(), 1);
    assert_eq!(r.entries[0].name, "y");
}

#[test]
fn listing_of_the_root() {
    let r = build_listing("/", &vec![remote("/etc", 0o040755)]);
    assert_eq!(r.parent_path, None);
    assert_eq!(r.entries[0].path, "/etc");
}

#[test]
fn listing_of_nothing() {
    let r = build_listing("/empty", &Vec::new());
    assert!(r.entries.is_empty());
    assert_eq!(r.parent_path, Some("/".to_string()));
}
