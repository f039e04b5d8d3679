use ssh_cli::glob::matches_pattern;
use ssh_cli::model::{FileEncoding, RemoteStat};
use ssh_cli::paths::{join_path, parent_path};
use ssh_cli::perms::format_permissions;
use ssh_cli::timefmt::format_timestamp;

#[test]
fn test_format_permissions() {
    let mut stat = RemoteStat { size: Some(0), perm: Some(0o100644), mtime: None };
    assert_eq!(format_permissions(&stat), "-rw-r--r--");
    stat.perm = Some(0o040755);
    assert_eq!(format_permissions(&stat), "drwxr-xr-x");
}

#[test]
fn permissions_of_missing_mode() {
    let stat = RemoteStat { size: None, perm: None, mtime: None };
    assert_eq!(format_permissions(&stat), "----------");
    let stat = RemoteStat { size: None, perm: Some(0o100777), mtime: None };
    assert_eq!(format_permissions(&stat), "-rwxrwxrwx");
    assert!(!stat.is_dir());
    let stat = RemoteStat { size: None, perm: Some(0o040000), mtime: None };
    assert!(stat.is_dir());
}

#[test]
fn test_matches_pattern() {
    assert!(matches_pattern("test.txt", "*.txt"));
    assert!(matches_pattern("file.rs", "file.?s"));
    assert!(!matches_pattern("test.pdf", "*.txt"));
    assert!(matches_pattern("readme", "*"));
}

#[test]
fn glob_is_anchored_and_literal() {
    assert!(!matches_pattern("a.txt.bak", "*.txt"));
    assert!(!matches_pattern("xfile.rs", "file.rs"));
    assert!(matches_pattern("", "*"));
    assert!(!matches_pattern("", "?"));
    assert!(matches_pattern("abc", "a*c"));
    assert!(matches_pattern("ac", "a*c"));
    assert!(!matches_pattern("ab", "a?c"));
    assert!(!matches_pattern("axc", "a.c"));
    assert!(matches_pattern("a.c", "a.c"));
    assert!(matches_pattern("a+b(1)", "a+b(?)"));
    assert!(matches_pattern("line\nbreak", "line*"));
    assert!(matches_pattern("日本語.txt", "??語.*"));
}

#[test]
fn test_format_timestamp() {
    let timestamp = 1704067200u64;
    let formatted = format_timestamp(Some(timestamp));
    assert!(formatted.contains("Jan"));
    assert!(formatted.contains("01"));
}

#[test]
fn timestamp_exact_and_missing() {
    assert_eq!(format_timestamp(Some(1704067200)), "Jan 01 00:00");
    assert_eq!(format_timestamp(Some(0)), "Jan 01 00:00");
    assert_eq!(format_timestamp(Some(1718454645)), "Jun 15 12:30");
    assert_eq!(format_timestamp(None), "Unknown");
    assert_eq!(format_timestamp(Some(u64::MAX)), "Dec 31 23:59");
    let far = format_timestamp(Some(1u64 << 62));
    let c: Vec<char> = far.chars().collect();
    assert_eq!(c.len(), 12);
    assert!(c[0..3].iter().all(|x| x.is_ascii_alphabetic()));
    assert!(c[3] == ' ' && c[6] == ' ' && c[9] == ':');
    assert!([4, 5, 7, 8, 10, 11].iter().all(|&i| c[i].is_ascii_digit()));
}

#[test]
fn join_path_cases() {
    assert_eq!(join_path("/home/u/", "a.txt"), "/home/u/a.txt");
    assert_eq!(join_path("", "a.txt"), "a.txt");
    assert_eq!(join_path("/home/u", "a.txt"), "/home/u/a.txt");
}

#[test]
fn parent_path_cases() {
    assert_eq!(parent_path("/home/u"), Some("/home".to_string()));
    assert_eq!(parent_path("/home/u/"), Some("/home".to_string()));
    assert_eq!(parent_path("/home"), Some("/".to_string()));
    assert_eq!(parent_path("/"), None);
    assert_eq!(parent_path(""), None);
    assert_eq!(parent_path("relative"), None);
    assert_eq!(parent_path("a/b"), Some("a".to_string()));
}

#[test]
fn encoding_labels() {
    assert_eq!(FileEncoding::Utf8.label(), "UTF-8");
    assert_eq!(FileEncoding::ShiftJis.label(), "Shift-JIS");
}
