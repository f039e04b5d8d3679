use ssh_cli::listing::{list_messages, listing_entries, RawEntry};
use ssh_cli::message::{batch_messages, AppMessage};
use ssh_cli::model::{FileEntry, RemoteStat};
use ssh_cli::search::{SearchWalk, WalkStep};
use ssh_cli::transfer::{content_message, content_prefix, download_message};

fn file(path: &str, name: &str, size: u64) -> RawEntry {
    RawEntry {
        path: path.to_string(),
        name: Some(name.to_string()),
        stat: RemoteStat { size: Some(size), perm: Some(0o100644), mtime: None },
    }
}

fn dir(path: &str, name: &str) -> RawEntry {
    RawEntry {
        path: path.to_string(),
        name: Some(name.to_string()),
        stat: RemoteStat { size: None, perm: Some(0o040755), mtime: Some(1704067200) },
    }
}

fn entry(name: &str) -> FileEntry {
    FileEntry { perm: "-rw-r--r--".to_string(), size: 1, date: "Unknown".to_string(), name: name.to_string() }
}

#[test]
fn listing_batches_cover_all_entries_once() {
    let mut raw = vec![dir("/d/.", "."), dir("/d/..", "..")];
    for i in 0..450u64 {
        raw.push(file(&format!("/d/f{}", i), &format!("f{}", i), i));
    }
    let msgs: Vec<AppMessage<()>> = list_messages("/d", Ok(raw));
    assert_eq!(msgs.len(), 5);
    assert!(matches!(&msgs[0], AppMessage::ListStarted(p) if p == "/d"));
    let mut names = Vec::new();
    let mut sizes = Vec::new();
    for m in &msgs[1..4] {
        match m {
            AppMessage::ListBatch(b) => {
                assert!(b.len() <= 200 && !b.is_empty());
                sizes.push(b.len());
                for e in b {
                    names.push(e.name.clone());
                }
            }
            _ => panic!("expected a batch"),
        }
    }
    assert_eq!(sizes, vec![200, 200, 50]);
    assert!(matches!(msgs[4], AppMessage::ListFinished));
    let expected: Vec<String> = (0..450).map(|i| format!("f{}", i)).collect();
    assert_eq!(names, expected);
}

#[test]
fn listing_rows_and_unknown_names() {
    let raw = vec![
        RawEntry { path: "/x".to_string(), name: None, stat: RemoteStat { size: None, perm: None, mtime: None } },
        dir("/sub", "sub"),
    ];
    let rows = listing_entries(&raw);
    assert_eq!(rows.len(), 2);
    assert_eq!(rows[0], FileEntry { perm: "----------".to_string(), size: 0, date: "Unknown".to_string(), name: "?".to_string() });
    assert_eq!(rows[1].perm, "drwxr-xr-x");
    assert_eq!(rows[1].date, "Jan 01 00:00");
}

#[test]
fn empty_listing_and_failed_listing() {
    let msgs: Vec<AppMessage<()>> = list_messages("/e", Ok(vec![dir("/e/.", ".")]));
    assert_eq!(msgs.len(), 2);
    assert!(matches!(msgs[1], AppMessage::ListFinished));
    let msgs: Vec<AppMessage<()>> = list_messages("/e", Err("denied".to_string()));
    assert_eq!(msgs.len(), 2);
    assert!(matches!(&msgs[1], AppMessage::ListError(e) if e == "denied"));
}

#[test]
fn exact_batch_boundary() {
    let items: Vec<FileEntry> = (0..400).map(|i| entry(&format!("n{}", i))).collect();
    let msgs: Vec<AppMessage<()>> = batch_messages(items);
    assert_eq!(msgs.len(), 3);
    assert!(matches!(&msgs[1], AppMessage::ListBatch(b) if b.len() == 200 && b[0].name == "n200"));
}

fn run_walk(walk: &mut SearchWalk, tree: &dyn Fn(&str) -> Result<Vec<RawEntry>, String>, base: &str) -> Vec<String> {
    let mut asked = Vec::new();
    let mut path = base.to_string();
    loop {
        asked.push(path.clone());
        match walk.feed(tree(&path)) {
            WalkStep::ReadDir(p) => path = p,
            WalkStep::Done => break,
        }
    }
    asked
}

fn tree(path: &str) -> Result<Vec<RawEntry>, String> {
    match path {
        "/r" => Ok(vec![dir("/r/.", "."), dir("/r/..", ".."), file("/r/a.txt", "a.txt", 1), dir("/r/locked", "locked"), dir("/r/sub", "sub"), file("/r/b.rs", "b.rs", 2)]),
        "/r/locked" => Err("permission denied".to_string()),
        "/r/sub" => Ok(vec![file("/r/sub/c.txt", "c.txt", 3), dir("/r/sub/deep", "deep")]),
        "/r/sub/deep" => Ok(vec![file("/r/sub/deep/d.txt", "d.txt", 4)]),
        _ => Err("no such directory".to_string()),
    }
}

#[test]
fn recursive_search_skips_unreadable_directory() {
    let mut walk = SearchWalk::new("*.txt", true);
    let asked = run_walk(&mut walk, &tree, "/r");
    assert_eq!(asked, vec!["/r", "/r/locked", "/r/sub", "/r/sub/deep"]);
    assert!(walk.failed.is_none());
    let msgs: Vec<AppMessage<()>> = walk.finish();
    assert!(matches!(&msgs[0], AppMessage::SearchStarted(p) if p == "*.txt"));
    match &msgs[1] {
        AppMessage::ListBatch(b) => {
            let names: Vec<&str> = b.iter().map(|e| e.name.as_str()).collect();
            assert_eq!(names, vec!["a.txt", "c.txt", "d.txt"]);
        }
        _ => panic!("expected a batch"),
    }
    assert!(matches!(msgs[2], AppMessage::ListFinished));
    assert_eq!(msgs.len(), 3);
}

#[test]
fn directories_match_too_and_flat_search_stays_put() {
    let mut walk = SearchWalk::new("s*", false);
    let asked = run_walk(&mut walk, &tree, "/r");
    assert_eq!(asked, vec!["/r"]);
    let msgs: Vec<AppMessage<()>> = walk.finish();
    match &msgs[1] {
        AppMessage::ListBatch(b) => {
            assert_eq!(b.len(), 1);
            assert_eq!(b[0].name, "sub");
            assert_eq!(b[0].perm, "drwxr-xr-x");
        }
        _ => panic!("expected a batch"),
    }
}

#[test]
fn search_of_unreadable_base_fails() {
    let mut walk = SearchWalk::new("*", true);
    let asked = run_walk(&mut walk, &tree, "/r/locked");
    assert_eq!(asked.len(), 1);
    let msgs: Vec<AppMessage<()>> = walk.finish();
    assert_eq!(msgs.len(), 2);
    assert!(matches!(&msgs[1], AppMessage::ListError(e) if e == "permission denied"));
}

#[test]
fn content_read_is_capped() {
    let buf = vec![7u8; 10];
    assert_eq!(content_prefix(buf.clone(), 10, 4), vec![7u8; 4]);
    assert_eq!(content_prefix(buf.clone(), 3, 4), vec![7u8; 3]);
    assert_eq!(content_prefix(vec![1, 2], 5, 100), vec![1, 2]);
    let m: AppMessage<()> = content_message("/f", Ok((vec![1, 2, 3, 4, 5], 5)), 2);
    match m {
        AppMessage::FileContentResult(Ok((p, b))) => {
            assert_eq!(p, "/f");
            assert_eq!(b, vec![1, 2]);
        }
        _ => panic!("expected content"),
    }
    let m: AppMessage<()> = content_message("/f", Err("gone".to_string()), 2);
    assert!(matches!(m, AppMessage::FileContentResult(Err(e)) if e == "gone"));
}

#[test]
fn download_messages() {
    let m: AppMessage<()> = download_message("a.txt", Ok(()));
    assert!(matches!(m, AppMessage::DownloadResult(Ok(s)) if s == "Downloaded a.txt"));
    let m: AppMessage<()> = download_message("a.txt", Err("disk full".to_string()));
    assert!(matches!(m, AppMessage::DownloadResult(Err(s)) if s == "disk full"));
}
