use ssh_cli::message::AppMessage;
use ssh_cli::model::{DirectoryBookmark, FavoriteConnection, FileEncoding, FileEntry, SortColumn, SortDirection};
use ssh_cli::sorting::sort_entries;
use ssh_cli::state::BrowserState;
use ssh_cli::viewer::FileViewerState;

fn row(name: &str, size: u64, date: &str) -> FileEntry {
    FileEntry { perm: "-rw-r--r--".to_string(), size, date: date.to_string(), name: name.to_string() }
}

fn fresh() -> BrowserState<u32> {
    BrowserState::new(Vec::new(), Vec::new())
}

fn names(s: &BrowserState<u32>) -> Vec<String> {
    s.files.iter().map(|e| e.name.clone()).collect()
}

#[test]
fn initial_state() {
    let s = fresh();
    assert_eq!(s.host, "0.0.0.0:22");
    assert_eq!(s.status_msg, "Ready to connect.");
    assert!(!s.is_connected && !s.is_loading);
    assert!(s.sort_column == SortColumn::Unsorted);
}

#[test]
fn sort_toggle_sequence() {
    let mut s = fresh();
    s.files = vec![row("b", 2, "x"), row("a", 3, "y"), row("c", 1, "z")];
    s.trigger_sort(SortColumn::Name);
    assert!(s.sort_column == SortColumn::Name && s.sort_direction == SortDirection::Asc);
    assert_eq!(names(&s), vec!["a", "b", "c"]);
    s.trigger_sort(SortColumn::Name);
    assert!(s.sort_direction == SortDirection::Desc);
    assert_eq!(names(&s), vec!["c", "b", "a"]);
    s.trigger_sort(SortColumn::Name);
    assert!(s.sort_direction == SortDirection::Asc);
    s.trigger_sort(SortColumn::Name);
    s.trigger_sort(SortColumn::Size);
    assert!(s.sort_column == SortColumn::Size && s.sort_direction == SortDirection::Asc);
    assert_eq!(names(&s), vec!["c", "b", "a"]);
}

#[test]
fn sort_is_stable() {
    let mut v = vec![row("x", 5, ""), row("y", 1, ""), row("z", 5, ""), row("w", 1, "")];
    sort_entries(&mut v, SortColumn::Size, SortDirection::Asc);
    let n: Vec<&str> = v.iter().map(|e| e.name.as_str()).collect();
    assert_eq!(n, vec!["y", "w", "x", "z"]);
    sort_entries(&mut v, SortColumn::Size, SortDirection::Desc);
    let n: Vec<&str> = v.iter().map(|e| e.name.as_str()).collect();
    assert_eq!(n, vec!["x", "z", "y", "w"]);
    let mut u = vec![row("B", 0, ""), row("a", 0, ""), row("Ab", 0, ""), row("é", 0, "")];
    sort_entries(&mut u, SortColumn::Name, SortDirection::Asc);
    let n: Vec<&str> = u.iter().map(|e| e.name.as_str()).collect();
    assert_eq!(n, vec!["Ab", "B", "a", "é"]);
}

#[test]
fn batches_are_resorted_on_arrival() {
    let mut s = fresh();
    s.trigger_sort(SortColumn::Size);
    s.apply(AppMessage::ListStarted("/d".to_string()));
    assert!(s.is_loading);
    assert_eq!(s.current_path, "/d");
    assert_eq!(s.status_msg, "Listing files...");
    s.apply(AppMessage::ListBatch(vec![row("a", 9, ""), row("b", 1, "")]));
    assert_eq!(names(&s), vec!["b", "a"]);
    s.apply(AppMessage::ListBatch(vec![row("c", 5, "")]));
    assert_eq!(names(&s), vec!["b", "c", "a"]);
    s.apply(AppMessage::ListFinished);
    assert!(!s.is_loading);
    assert_eq!(s.status_msg, "Listed 3 files.");
}

#[test]
fn unsorted_batches_keep_arrival_order() {
    let mut s = fresh();
    s.apply(AppMessage::SearchStarted("*.rs".to_string()));
    assert_eq!(s.status_msg, "Searching for '*.rs'...");
    s.apply(AppMessage::ListBatch(vec![row("z", 1, ""), row("a", 2, "")]));
    assert_eq!(names(&s), vec!["z", "a"]);
    s.apply(AppMessage::ListError("broken pipe".to_string()));
    assert_eq!(s.status_msg, "List error: broken pipe");
    assert!(!s.is_loading);
}

#[test]
fn connection_messages() {
    let mut s = fresh();
    assert!(s.begin_connect());
    assert_eq!(s.status_msg, "Connecting...");
    assert!(!s.begin_connect());
    s.apply(AppMessage::ConnectionResult(Err("refused".to_string())));
    assert_eq!(s.status_msg, "Error: refused");
    assert!(!s.is_connected && !s.is_loading);
    s.apply(AppMessage::ConnectionResult(Ok((7, "/home/u".to_string()))));
    assert_eq!(s.connection, Some(7));
    assert_eq!(s.current_path, "/home/u");
    assert!(s.is_connected);
    assert_eq!(s.status_msg, "Connected.");
    s.disconnect();
    assert!(!s.is_connected && s.connection.is_none());
    assert_eq!(s.status_msg, "Disconnected.");
}

#[test]
fn download_and_content_messages() {
    let mut s = fresh();
    s.apply(AppMessage::DownloadResult(Ok("Downloaded a".to_string())));
    assert_eq!(s.status_msg, "Downloaded a");
    s.apply(AppMessage::DownloadResult(Err("eof".to_string())));
    assert_eq!(s.status_msg, "Download failed: eof");
    s.apply(AppMessage::FileContentResult(Err("nope".to_string())));
    assert_eq!(s.status_msg, "Failed to read file: nope");
    assert!(s.viewing_file.is_none());
    s.apply(AppMessage::FileContentResult(Ok(("/f.txt".to_string(), "héllo".as_bytes().to_vec()))));
    assert_eq!(s.status_msg, "File content loaded.");
    let v = s.viewing_file.as_ref().unwrap();
    assert_eq!(v.filename, "/f.txt");
    assert_eq!(v.decoded_content, "héllo");
    assert!(v.encoding == FileEncoding::Utf8);
}

#[test]
fn viewer_switches_encoding() {
    let mut v = FileViewerState::open("j.txt".to_string(), vec![0x82, 0xa0]);
    assert_eq!(v.decoded_content, "\u{fffd}\u{fffd}");
    v.set_encoding(FileEncoding::ShiftJis);
    assert_eq!(v.decoded_content, "あ");
    v.set_encoding(FileEncoding::Utf8);
    assert_eq!(v.decoded_content, "\u{fffd}\u{fffd}");
    assert_eq!(v.raw_content, vec![0x82, 0xa0]);
}

#[test]
fn favorites_upsert_and_delete() {
    let mut s = fresh();
    assert!(!s.save_favorite());
    s.favorite_name_input = "work".to_string();
    s.host = "10.0.0.1:22".to_string();
    s.user = "me".to_string();
    s.password = "SECRET-REDACTED".to_string();
    assert!(s.save_favorite());
    assert_eq!(s.status_msg, "Saved favorite 'work'");
    s.host = "10.0.0.2:22".to_string();
    assert!(s.save_favorite());
    assert_eq!(s.favorites.len(), 1);
    assert_eq!(s.favorites[0], FavoriteConnection { name: "work".to_string(), host: "10.0.0.2:22".to_string(), user: "me".to_string(), password: "SECRET-REDACTED".to_string() });
    s.favorite_name_input = "home".to_string();
    assert!(!s.delete_favorite());
    assert_eq!(s.status_msg, "Favorite 'home' not found");
    s.favorite_name_input = "work".to_string();
    assert!(s.delete_favorite());
    assert_eq!(s.status_msg, "Deleted favorite 'work'");
    assert!(s.favorites.is_empty());
    assert!(s.favorite_name_input.is_empty());
}

#[test]
fn bookmarks_add_update_delete() {
    let mut s = fresh();
    assert!(!s.add_directory_bookmark());
    assert_eq!(s.status_msg, "Bookmark name cannot be empty.");
    assert!(!s.delete_directory_bookmark());
    assert_eq!(s.status_msg, "Bookmark name cannot be empty.");
    s.current_path = "/var/log".to_string();
    s.bookmark_name_input = "logs".to_string();
    assert!(s.add_directory_bookmark());
    assert_eq!(s.status_msg, "Added bookmark 'logs'");
    assert!(s.bookmark_name_input.is_empty());
    s.current_path = "/var/log/nginx".to_string();
    s.bookmark_name_input = "logs".to_string();
    assert!(s.add_directory_bookmark());
    assert_eq!(s.status_msg, "Updated bookmark 'logs'");
    assert_eq!(s.directory_bookmarks, vec![DirectoryBookmark { name: "logs".to_string(), path: "/var/log/nginx".to_string(), host: "0.0.0.0:22".to_string() }]);
    s.directory_bookmarks.push(DirectoryBookmark { name: "other".to_string(), path: "/".to_string(), host: "h:22".to_string() });
    assert_eq!(s.host_bookmarks(), vec![0]);
    s.bookmark_name_input = "nope".to_string();
    assert!(!s.delete_directory_bookmark());
    assert_eq!(s.status_msg, "Bookmark 'nope' not found");
    s.bookmark_name_input = "logs".to_string();
    assert!(s.delete_directory_bookmark());
    assert_eq!(s.status_msg, "Deleted bookmark 'logs'");
    assert_eq!(s.directory_bookmarks.len(), 1);
}
