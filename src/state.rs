use vstd::prelude::*;
use crate::message::AppMessage;
use crate::model::{DirectoryBookmark, FavoriteConnection, FileEntry, SortColumn, SortDirection};
use crate::sorting::{sort_entries, sorted_entries};
use crate::text::{concat3, decimal_text, usize_text};
use crate::viewer::{FileViewerState, decoded_text};

verus! {

/// Everything the browser shows and remembers between frames. `C` is the
/// connection handle shared with workers.
pub struct BrowserState<C> {
    pub connection: Option<C>,
    pub is_connected: bool,
    pub host: String,
    pub user: String,
    pub password: String,
    pub favorites: Vec<FavoriteConnection>,
    pub favorite_name_input: String,
    pub directory_bookmarks: Vec<DirectoryBookmark>,
    pub bookmark_name_input: String,
    pub files: Vec<FileEntry>,
    pub selected_file: Option<FileEntry>,
    pub current_path: String,
    pub search_query: String,
    pub recursive_search: bool,
    pub viewing_file: Option<FileViewerState>,
    pub status_msg: String,
    pub is_loading: bool,
    pub sort_column: SortColumn,
    pub sort_direction: SortDirection,
}

/// The table after adding rows: re-ordered whole while a column is chosen.
pub open spec fn table_after(files: Seq<FileEntry>, col: SortColumn, dir: SortDirection) -> Seq<FileEntry> {
    if col is Unsorted {
        files
    } else {
        sorted_entries(files, col, dir)
    }
}

/// Sort state after a click on `col`: the same column flips direction, a
/// new one starts ascending.
pub open spec fn toggled(cur: SortColumn, dir: SortDirection, col: SortColumn) -> (SortColumn, SortDirection) {
    if cur == col {
        (
            col,
            match dir {
                SortDirection::Asc => SortDirection::Desc,
                SortDirection::Desc => SortDirection::Asc,
            },
        )
    } else {
        (col, SortDirection::Asc)
    }
}

impl<C> BrowserState<C> {
    /// The state before any connection: host `0.0.0.0:22`, nothing listed,
    /// no order chosen.
    pub fn new(favorites: Vec<FavoriteConnection>, directory_bookmarks: Vec<DirectoryBookmark>) -> (s: Self)
        ensures
            s.connection.is_none(),
            !s.is_connected,
            s.host@ == "0.0.0.0:22"@,
            s.user@.len() == 0,
            s.password@.len() == 0,
            s.favorites@ == favorites@,
            s.directory_bookmarks@ == directory_bookmarks@,
            s.files@.len() == 0,
            s.selected_file.is_none(),
            s.current_path@.len() == 0,
            s.viewing_file.is_none(),
            s.status_msg@ == "Ready to connect."@,
            !s.is_loading,
            s.sort_column == SortColumn::Unsorted,
            s.sort_direction == SortDirection::Asc,
    {
        BrowserState {
            connection: None,
            is_connected: false,
            host: String::from_str("0.0.0.0:22"),
            user: String::new(),
            password: String::new(),
            favorites,
            favorite_name_input: String::new(),
            directory_bookmarks,
            bookmark_name_input: String::new(),
            files: Vec::new(),
            selected_file: None,
            current_path: String::new(),
            search_query: String::new(),
            recursive_search: false,
            viewing_file: None,
            status_msg: String::from_str("Ready to connect."),
            is_loading: false,
            sort_column: SortColumn::Unsorted,
            sort_direction: SortDirection::Asc,
        }
    }

    /// Re-orders the table by the chosen column; leaves it as it is when
    /// none is chosen.
    pub fn sort_files(&mut self)
        ensures
            final(self).files@ == table_after(old(self).files@, old(self).sort_column, old(self).sort_direction),
            final(self).sort_column == old(self).sort_column,
            final(self).sort_direction == old(self).sort_direction,
            final(self).status_msg == old(self).status_msg,
            final(self).is_loading == old(self).is_loading,
            final(self).current_path == old(self).current_path,
    {
        if self.sort_column == SortColumn::Unsorted {
            return;
        }
        let col = self.sort_column;
        let dir = self.sort_direction;
        sort_entries(&mut self.files, col, dir);
    }

    /// A click on the header of `column`.
    pub fn trigger_sort(&mut self, column: SortColumn)
        ensures
            (final(self).sort_column, final(self).sort_direction) == toggled(
                old(self).sort_column,
                old(self).sort_direction,
                column,
            ),
            final(self).files@ == table_after(old(self).files@, final(self).sort_column, final(self).sort_direction),
    {
        if self.sort_column == column {
            self.sort_direction = match self.sort_direction {
                SortDirection::Asc => SortDirection::Desc,
                SortDirection::Desc => SortDirection::Asc,
            };
        } else {
            self.sort_column = column;
            self.sort_direction = SortDirection::Asc;
        }
        self.sort_files();
    }

    /// Starts a connection attempt unless one is already under way; says
    /// whether the caller should start the worker.
    pub fn begin_connect(&mut self) -> (go: bool)
        ensures
            go == !old(self).is_loading,
            go ==> final(self).is_loading && final(self).status_msg@ == "Connecting..."@,
            !go ==> *final(self) == *old(self),
    {
        if self.is_loading {
            return false;
        }
        self.is_loading = true;
        self.status_msg = String::from_str("Connecting...");
        true
    }

    /// Drops the connection and the table.
    pub fn disconnect(&mut self)
        ensures
            !final(self).is_connected,
            final(self).connection.is_none(),
            final(self).files@.len() == 0,
            final(self).status_msg@ == "Disconnected."@,
    {
        self.is_connected = false;
        self.connection = None;
        self.files = Vec::new();
        self.status_msg = String::from_str("Disconnected.");
    }

    /// Applies one message from a worker.
    pub fn apply(&mut self, msg: AppMessage<C>)
        ensures
            final(self).sort_column == old(self).sort_column,
            final(self).sort_direction == old(self).sort_direction,
            match msg {
                AppMessage::ConnectionResult(Ok((c, p))) => final(self).connection == Some(c)
                    && final(self).current_path@ == p@ && final(self).is_connected
                    && !final(self).is_loading && final(self).status_msg@ == "Connected."@,
                AppMessage::ConnectionResult(Err(e)) => final(self).connection == old(self).connection
                    && !final(self).is_connected && !final(self).is_loading
                    && final(self).status_msg@ == "Error: "@ + e@,
                AppMessage::ListStarted(p) => final(self).is_loading && final(self).files@.len() == 0
                    && final(self).selected_file.is_none() && final(self).current_path@ == p@
                    && final(self).status_msg@ == "Listing files..."@,
                AppMessage::SearchStarted(q) => final(self).is_loading && final(self).files@.len() == 0
                    && final(self).selected_file.is_none()
                    && final(self).current_path == old(self).current_path
                    && final(self).status_msg@ == "Searching for '"@ + q@ + "'..."@,
                AppMessage::ListBatch(b) => final(self).files@ == table_after(
                    old(self).files@ + b@,
                    old(self).sort_column,
                    old(self).sort_direction,
                ) && final(self).is_loading == old(self).is_loading
                    && final(self).status_msg == old(self).status_msg,
                AppMessage::ListFinished => final(self).files@ == table_after(
                    old(self).files@,
                    old(self).sort_column,
                    old(self).sort_direction,
                ) && !final(self).is_loading && final(self).status_msg@ == "Listed "@
                    + decimal_text(old(self).files@.len()) + " files."@,
                AppMessage::ListError(e) => !final(self).is_loading && final(self).files
                    == old(self).files && final(self).status_msg@ == "List error: "@ + e@,
                AppMessage::DownloadResult(Ok(m)) => !final(self).is_loading
                    && final(self).status_msg@ == m@,
                AppMessage::DownloadResult(Err(e)) => !final(self).is_loading
                    && final(self).status_msg@ == "Download failed: "@ + e@,
                AppMessage::FileContentResult(Ok((name, raw))) => !final(self).is_loading
                    && final(self).viewing_file is Some && final(self).viewing_file->Some_0.wf()
                    && final(self).viewing_file->Some_0.filename@ == name@
                    && final(self).viewing_file->Some_0.raw_content@ == raw@
                    && final(self).viewing_file->Some_0.decoded_content@ == decoded_text(false, raw@)
                    && final(self).status_msg@ == "File content loaded."@,
                AppMessage::FileContentResult(Err(e)) => !final(self).is_loading
                    && final(self).viewing_file == old(self).viewing_file
                    && final(self).status_msg@ == "Failed to read file: "@ + e@,
            },
    {
        match msg {
            AppMessage::ConnectionResult(res) => match res {
                Ok((c, p)) => {
                    self.connection = Some(c);
                    self.current_path = p;
                    self.status_msg = String::from_str("Connected.");
                    self.is_connected = true;
                    self.is_loading = false;
                },
                Err(e) => {
                    self.is_loading = false;
                    self.status_msg = String::from_str("Error: ").concat(e.as_str());
                    self.is_connected = false;
                },
            },
            AppMessage::ListStarted(p) => {
                self.is_loading = true;
                self.files = Vec::new();
                self.selected_file = None;
                self.current_path = p;
                self.status_msg = String::from_str("Listing files...");
            },
            AppMessage::SearchStarted(q) => {
                self.is_loading = true;
                self.files = Vec::new();
                self.selected_file = None;
                self.status_msg = concat3("Searching for '", q.as_str(), "'...");
            },
            AppMessage::ListBatch(b) => {
                let mut b = b;
                self.files.append(&mut b);
                self.sort_files();
            },
            AppMessage::ListFinished => {
                self.is_loading = false;
                let n = usize_text(self.files.len());
                self.status_msg = concat3("Listed ", n.as_str(), " files.");
                self.sort_files();
            },
            AppMessage::ListError(e) => {
                self.is_loading = false;
                self.status_msg = String::from_str("List error: ").concat(e.as_str());
            },
            AppMessage::DownloadResult(res) => {
                self.is_loading = false;
                match res {
                    Ok(m) => self.status_msg = m,
                    Err(e) => self.status_msg = String::from_str("Download failed: ").concat(e.as_str()),
                }
            },
            AppMessage::FileContentResult(res) => {
                self.is_loading = false;
                match res {
                    Ok((name, raw)) => {
                        self.viewing_file = Some(FileViewerState::open(name, raw));
                        self.status_msg = String::from_str("File content loaded.");
                    },
                    Err(e) => {
                        self.status_msg = String::from_str("Failed to read file: ").concat(e.as_str());
                    },
                }
            },
        }
    }
}

} // verus!

verus! {

/// The first click on a column orders it ascending, the next one
/// descending, the one after that ascending again; a click on any other
/// column orders that one ascending.
pub proof fn sort_toggle_cycle(cur: SortColumn, dir: SortDirection, col: SortColumn)
    ensures
        cur != col ==> toggled(cur, dir, col) == (col, SortDirection::Asc),
        cur != col ==> toggled(col, SortDirection::Asc, col) == (col, SortDirection::Desc),
        toggled(col, SortDirection::Desc, col) == (col, SortDirection::Asc),
{
}

} // verus!
