//! The vocabulary of the dialogue between the engine and its caller: the
//! filesystem operations the engine asks for, and the outcomes it is told.
use std::path::PathBuf;
use vstd::prelude::*;

verus! {

/// What a metadata query tells of a path.
#[derive(Clone, Copy, Debug, PartialEq, Eq)]
pub struct EntryMeta {
    /// Whether the path is a directory.
    pub is_dir: bool,
    /// The length in bytes that the filesystem reports for it.
    pub len: u64,
}

/// One child found while listing a directory, with the outcome of the
/// metadata query on it: the metadata, or the reason why it could not be had.
#[derive(Debug, PartialEq, Eq)]
pub struct DirEntry {
    pub path: PathBuf,
    pub meta: Result<EntryMeta, String>,
}

/// A file that waits to be removed, with the length it had when its directory
/// was listed.
#[derive(Debug, PartialEq, Eq)]
pub struct PendingFile {
    pub path: PathBuf,
    pub size: u64,
}

/// The outcome of the operation that the engine asked for last. A failure
/// carries the text of its cause.
#[derive(Debug, PartialEq, Eq)]
pub enum Event {
    /// Answers [`Action::Stat`].
    Metadata(Result<EntryMeta, String>),
    /// Answers [`Action::ReadDir`]: the children of the directory, each with
    /// its metadata, in the order in which the filesystem gave them.
    Listing(Result<Vec<DirEntry>, String>),
    /// Answers [`Action::RemoveFile`] and [`Action::RemoveDir`].
    Removed(Result<(), String>),
}

/// An [`Event`] as a mathematical value.
pub enum EventView {
    Metadata(Result<EntryMeta, String>),
    Listing(Result<Seq<DirEntry>, String>),
    Removed(Result<(), String>),
}

impl View for Event {
    type V = EventView;

    open spec fn view(&self) -> EventView {
        match *self {
            Event::Metadata(r) => EventView::Metadata(r),
            Event::Listing(Ok(entries)) => EventView::Listing(Ok(entries@)),
            Event::Listing(Err(cause)) => EventView::Listing(Err(cause)),
            Event::Removed(r) => EventView::Removed(r),
        }
    }
}

/// Why a run ended before anything was touched.
#[derive(Debug, PartialEq, Eq)]
pub enum DeletionError {
    /// The metadata of the root could not be read.
    Access { path: PathBuf, cause: String },
    /// The root exists and is not a directory.
    InvalidTarget { path: PathBuf },
}

/// What the caller has to do next.
#[derive(Debug, PartialEq, Eq)]
pub enum Action {
    /// Query the metadata of the path and answer with [`Event::Metadata`].
    Stat(PathBuf),
    /// List the directory, query the metadata of each child, and answer
    /// with [`Event::Listing`].
    ReadDir(PathBuf),
    /// Remove the file and answer with [`Event::Removed`].
    RemoveFile(PathBuf),
    /// Remove the directory, which succeeds only if it is empty, and answer
    /// with [`Event::Removed`].
    RemoveDir(PathBuf),
    /// The run is over, with this result. Nothing is left to do.
    Finish(Result<(), DeletionError>),
    /// The call did not fit the state of the engine, which is left as it
    /// was: an event that answers no outstanding request, or a new run
    /// while one is under way.
    OutOfTurn,
}

/// A line for the progress and log sink. The engine hands reports out only
/// when it is verbose.
#[derive(Debug, PartialEq, Eq)]
pub enum Report {
    /// The root was found to be a directory and the traversal begins.
    Started { path: PathBuf },
    /// A file was removed.
    FileDeleted { path: PathBuf },
    /// A directory was removed.
    DirDeleted { path: PathBuf },
    /// A directory could not be listed and is taken to be empty.
    ListFailed { path: PathBuf, cause: String },
    /// The metadata of a child could not be read; the child is skipped.
    MetadataFailed { path: PathBuf, cause: String },
    /// A file could not be removed and stays in place.
    FileFailed { path: PathBuf, cause: String },
    /// A directory could not be removed and stays in place.
    DirFailed { path: PathBuf, cause: String },
}

impl Report {
    /// Whether the report tells of progress (something was removed) rather
    /// than of a failure or of the start.
    pub open spec fn is_progress(&self) -> bool {
        *self is FileDeleted || *self is DirDeleted
    }

    /// Whether the report tells of a failure that was counted.
    pub open spec fn is_failure(&self) -> bool {
        *self is ListFailed || *self is MetadataFailed || *self is FileFailed || *self is DirFailed
    }
}

/// What one step of the engine hands back: the next thing to do, and the
/// reports that the step gave rise to, oldest first.
#[derive(Debug, PartialEq, Eq)]
pub struct Step {
    pub action: Action,
    pub reports: Vec<Report>,
}

} // verus!
