use vstd::prelude::*;

verus! {

/// One row of a directory listing or of a search result.
#[derive(Debug, Clone, PartialEq)]
pub struct FileEntry {
    pub perm: String,
    pub size: u64,
    pub date: String,
    pub name: String,
}

/// The column the file table is ordered by.
#[derive(PartialEq, Eq, Structural, Clone, Copy, Debug)]
pub enum SortColumn {
    Unsorted,
    Permission,
    Size,
    Date,
    Name,
}

/// The direction of the current ordering.
#[derive(PartialEq, Eq, Structural, Clone, Copy, Debug)]
pub enum SortDirection {
    Asc,
    Desc,
}

/// A saved login profile.
#[derive(Debug, Clone, PartialEq)]
pub struct FavoriteConnection {
    pub name: String,
    pub host: String,
    pub user: String,
    pub password: String,
}

/// A named shortcut to a directory on one host.
#[derive(Debug, Clone, PartialEq)]
pub struct DirectoryBookmark {
    pub name: String,
    pub path: String,
    pub host: String,
}

/// Text encoding used to show the bytes of a viewed file.
#[derive(Debug, Clone, Copy, PartialEq, Eq, Structural)]
pub enum FileEncoding {
    Utf8,
    ShiftJis,
}

/// What `FileEncoding::label` shows for each encoding.
pub open spec fn encoding_label(e: FileEncoding) -> Seq<char> {
    match e {
        FileEncoding::Utf8 => "UTF-8"@,
        FileEncoding::ShiftJis => "Shift-JIS"@,
    }
}

impl FileEncoding {
    /// The display name of the encoding.
    pub fn label(&self) -> (r: String)
        ensures
            r@ == encoding_label(*self),
    {
        match self {
            FileEncoding::Utf8 => String::from_str("UTF-8"),
            FileEncoding::ShiftJis => String::from_str("Shift-JIS"),
        }
    }
}

/// Metadata of one remote directory entry, as the transfer protocol reports it.
/// Every field may be missing.
#[derive(Debug, Clone, Copy, PartialEq, Eq, Structural)]
pub struct RemoteStat {
    pub size: Option<u64>,
    pub perm: Option<u32>,
    pub mtime: Option<u64>,
}

/// The file-type bits of a mode word.
pub const TYPE_MASK: u32 = 0o170000;

/// The file-type bits of a directory.
pub const TYPE_DIR: u32 = 0o040000;

/// A stat describes a directory when the type bits of its mode (0 if absent) say so.
pub open spec fn stat_is_dir(s: RemoteStat) -> bool {
    (s.perm.unwrap_or(0u32) & TYPE_MASK) == TYPE_DIR
}

impl RemoteStat {
    pub fn is_dir(&self) -> (r: bool)
        ensures
            r == stat_is_dir(*self),
    {
        let p: u32 = match self.perm {
            Some(p) => p,
            None => 0,
        };
        (p & TYPE_MASK) == TYPE_DIR
    }
}

} // verus!
