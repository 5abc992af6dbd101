//! The engine as a mathematical state machine: its states, and the function
//! that takes a state and an event to the next state, the next action and the
//! reports of the step.
//!
//! The traversal is depth-first and post-order. Each directory under way has
//! a frame on a stack, the root lowest. A frame is listed once; then its
//! files are removed in listing order, then each subdirectory is descended
//! into and, when its own frame is done, removed; and only then the
//! removal of the frame's own directory is asked for.
use crate::protocol::{Action, DeletionError, DirEntry, EntryMeta, EventView, PendingFile, Report};
use crate::stats::{DeletionStats, Tally};
use std::path::PathBuf;
use vstd::prelude::*;

verus! {

/// Which answer the engine waits for.
#[derive(Clone, Copy, Debug, PartialEq, Eq, Structural)]
pub enum Phase {
    /// No run has begun.
    Idle,
    /// The metadata of the root was asked for.
    Validating,
    /// The listing of the topmost directory was asked for.
    Listing,
    /// The removal of the first waiting file of the topmost directory was
    /// asked for.
    RemovingFile,
    /// The removal of the topmost directory itself was asked for.
    RemovingDir,
    /// The run came to its end.
    Completed,
    /// The root was rejected and nothing was touched.
    Failed,
}

/// The progress of a run as its caller sees it.
#[derive(Clone, Copy, Debug, PartialEq, Eq, Structural)]
pub enum Stage {
    /// No run has begun.
    Idle,
    /// The root is being looked at.
    Validating,
    /// The tree below the root is being emptied.
    Traversing,
    /// Everything below the root has had its turn; the root itself is being
    /// removed.
    RemovingRoot,
    /// The run came to its end.
    Completed,
    /// The root was rejected and nothing was touched.
    Failed,
}

/// A directory under way: its path, the files that still wait to be removed
/// and the subdirectories that still wait to be descended into, both in
/// listing order.
pub struct FrameView {
    pub dir: PathBuf,
    pub files: Seq<PendingFile>,
    pub dirs: Seq<PathBuf>,
}

impl FrameView {
    /// The frame of a directory that has not been listed yet.
    pub open spec fn fresh(dir: PathBuf) -> FrameView {
        FrameView { dir, files: Seq::empty(), dirs: Seq::empty() }
    }

    /// Whether nothing waits in the frame.
    pub open spec fn exhausted(self) -> bool {
        self.files.len() == 0 && self.dirs.len() == 0
    }
}

/// A state of the engine.
pub struct EngineView {
    pub verbose: bool,
    pub stats: DeletionStats,
    pub phase: Phase,
    /// The directories under way, the root first and the current one last.
    pub stack: Seq<FrameView>,
}

/// What one step yields.
pub struct Outcome {
    pub state: EngineView,
    pub action: Action,
    pub reports: Seq<Report>,
}

/// Whether the child is a file: its metadata could be read and it is no
/// directory.
pub open spec fn is_file(entry: DirEntry) -> bool {
    entry.meta matches Ok(meta) && !meta.is_dir
}

/// Whether the child is a directory.
pub open spec fn is_subdirectory(entry: DirEntry) -> bool {
    entry.meta matches Ok(meta) && meta.is_dir
}

/// A file among the children as it waits to be removed: with its length.
pub open spec fn pending(entry: DirEntry) -> PendingFile
    recommends
        is_file(entry),
{
    PendingFile { path: entry.path, size: entry.meta->Ok_0.len }
}

/// The report of a child whose metadata could not be read.
pub open spec fn metadata_failure(entry: DirEntry) -> Report
    recommends
        entry.meta is Err,
{
    Report::MetadataFailed { path: entry.path, cause: entry.meta->Err_0 }
}

/// The files among `entries`, each with its length, in listing order.
pub open spec fn classify_files(entries: Seq<DirEntry>) -> Seq<PendingFile> {
    entries.filter(|entry: DirEntry| is_file(entry)).map_values(|entry: DirEntry| pending(entry))
}

/// The subdirectories among `entries`, in listing order.
pub open spec fn classify_dirs(entries: Seq<DirEntry>) -> Seq<PathBuf> {
    entries.filter(|entry: DirEntry| is_subdirectory(entry)).map_values(
        |entry: DirEntry| entry.path,
    )
}

/// One report for each child among `entries` whose metadata could not be
/// read, in listing order.
pub open spec fn metadata_failures(entries: Seq<DirEntry>) -> Seq<Report> {
    entries.filter(|entry: DirEntry| entry.meta is Err).map_values(
        |entry: DirEntry| metadata_failure(entry),
    )
}

/// Sorting a listing that is made of two parts is sorting each part.
pub proof fn lemma_classify_concat(a: Seq<DirEntry>, b: Seq<DirEntry>)
    ensures
        classify_files(a + b) == classify_files(a) + classify_files(b),
        classify_dirs(a + b) == classify_dirs(a) + classify_dirs(b),
        metadata_failures(a + b) == metadata_failures(a) + metadata_failures(b),
{
    Seq::filter_distributes_over_add(a, b, |entry: DirEntry| is_file(entry));
    Seq::filter_distributes_over_add(a, b, |entry: DirEntry| is_subdirectory(entry));
    Seq::filter_distributes_over_add(a, b, |entry: DirEntry| entry.meta is Err);
    assert(classify_files(a + b) =~= classify_files(a) + classify_files(b));
    assert(classify_dirs(a + b) =~= classify_dirs(a) + classify_dirs(b));
    assert(metadata_failures(a + b) =~= metadata_failures(a) + metadata_failures(b));
}

/// Sorting a listing of one child: it is a file, a subdirectory, or a child
/// whose metadata could not be read.
pub proof fn lemma_classify_one(entry: DirEntry)
    ensures
        classify_files(seq![entry]) == if is_file(entry) {
            seq![pending(entry)]
        } else {
            Seq::empty()
        },
        classify_dirs(seq![entry]) == if is_subdirectory(entry) {
            seq![entry.path]
        } else {
            Seq::empty()
        },
        metadata_failures(seq![entry]) == if entry.meta is Err {
            seq![metadata_failure(entry)]
        } else {
            Seq::empty()
        },
{
    reveal_with_fuel(Seq::filter, 2);
    let one = seq![entry];
    assert(one.drop_last() =~= Seq::<DirEntry>::empty());
    assert(one.last() == entry);
    assert(classify_files(one) =~= if is_file(entry) {
        seq![pending(entry)]
    } else {
        Seq::empty()
    });
    assert(classify_dirs(one) =~= if is_subdirectory(entry) {
        seq![entry.path]
    } else {
        Seq::empty()
    });
    assert(metadata_failures(one) =~= if entry.meta is Err {
        seq![metadata_failure(entry)]
    } else {
        Seq::empty()
    });
}

/// Nothing is sorted out of an empty listing.
pub proof fn lemma_classify_none()
    ensures
        classify_files(Seq::empty()) == Seq::<PendingFile>::empty(),
        classify_dirs(Seq::empty()) == Seq::<PathBuf>::empty(),
        metadata_failures(Seq::empty()) == Seq::<Report>::empty(),
{
    reveal_with_fuel(Seq::filter, 1);
    assert(classify_files(Seq::empty()) =~= Seq::<PendingFile>::empty());
    assert(classify_dirs(Seq::empty()) =~= Seq::<PathBuf>::empty());
    assert(metadata_failures(Seq::empty()) =~= Seq::<Report>::empty());
}

/// `reports` if the engine is verbose, nothing otherwise.
pub open spec fn voiced(verbose: bool, reports: Seq<Report>) -> Seq<Report> {
    if verbose {
        reports
    } else {
        Seq::empty()
    }
}

impl EngineView {
    /// The state of an engine that has not been used.
    pub open spec fn idle(verbose: bool) -> EngineView {
        EngineView {
            verbose,
            stats: DeletionStats::zero(),
            phase: Phase::Idle,
            stack: Seq::empty(),
        }
    }

    /// Whether a run is under way, so that an event is awaited.
    pub open spec fn busy(self) -> bool {
        self.phase == Phase::Validating || self.phase == Phase::Listing || self.phase
            == Phase::RemovingFile || self.phase == Phase::RemovingDir
    }

    /// The stage of the run.
    pub open spec fn stage(self) -> Stage {
        match self.phase {
            Phase::Idle => Stage::Idle,
            Phase::Validating => Stage::Validating,
            Phase::Listing | Phase::RemovingFile => Stage::Traversing,
            Phase::RemovingDir => if self.stack.len() <= 1 {
                Stage::RemovingRoot
            } else {
                Stage::Traversing
            },
            Phase::Completed => Stage::Completed,
            Phase::Failed => Stage::Failed,
        }
    }

    /// Whether the event is of the kind that the engine waits for.
    pub open spec fn awaits(self, event: EventView) -> bool {
        match self.phase {
            Phase::Validating => event is Metadata,
            Phase::Listing => event is Listing,
            Phase::RemovingFile | Phase::RemovingDir => event is Removed,
            _ => false,
        }
    }

    /// What holds of every state that an engine can come into. Without a
    /// run under way no directory is under way. The root alone is under way
    /// while it is validated. A directory is listed before anything waits
    /// in its frame; a file that is being removed is the first that waits
    /// in the topmost frame; a directory is being removed only when nothing
    /// waits in its frame any more. And below the topmost frame no file
    /// waits: the files of a directory are gone through before any of its
    /// subdirectories is entered.
    pub open spec fn coherent(self) -> bool {
        &&& forall|i: int|
            0 <= i < self.stack.len() - 1 ==> (#[trigger] self.stack[i]).files.len() == 0
        &&& match self.phase {
            Phase::Idle | Phase::Completed | Phase::Failed => self.stack.len() == 0,
            Phase::Validating => self.stack.len() == 1 && self.stack[0].exhausted(),
            Phase::Listing => self.stack.len() > 0 && self.stack.last().exhausted(),
            Phase::RemovingFile => self.stack.len() > 0 && self.stack.last().files.len() > 0,
            Phase::RemovingDir => self.stack.len() > 0 && self.stack.last().exhausted(),
        }
    }

    /// The state with `frame` put on top of the stack.
    pub open spec fn pushed(self, frame: FrameView) -> EngineView {
        EngineView { stack: self.stack.push(frame), ..self }
    }

    /// The state with the topmost frame replaced by `top`.
    pub open spec fn with_top(self, top: FrameView) -> EngineView {
        EngineView { stack: self.stack.drop_last().push(top), ..self }
    }

    /// The state with other counters.
    pub open spec fn with_stats(self, stats: DeletionStats) -> EngineView {
        EngineView { stats, ..self }
    }
}

/// The state is left as it was and the call is refused.
pub open spec fn out_of_turn(s: EngineView) -> Outcome {
    Outcome { state: s, action: Action::OutOfTurn, reports: Seq::empty() }
}

/// The beginning of a run on `root`: unless a run is under way, the root's
/// metadata is asked for. The counters go on from where they stand.
pub open spec fn spec_start(s: EngineView, root: PathBuf) -> (EngineView, Action) {
    if s.busy() {
        (s, Action::OutOfTurn)
    } else {
        (
            EngineView { phase: Phase::Validating, stack: seq![FrameView::fresh(root)], ..s },
            Action::Stat(root),
        )
    }
}

/// What comes next once the last answer has been taken in: the first
/// waiting file of the topmost frame is removed; if there is none, its
/// first waiting subdirectory gets a frame of its own and is listed; if
/// there is none either, the topmost directory itself is removed; and with
/// no frame left the run is complete.
pub open spec fn spec_proceed(s: EngineView) -> (EngineView, Action) {
    if s.stack.len() == 0 {
        (EngineView { phase: Phase::Completed, ..s }, Action::Finish(Ok(())))
    } else {
        let top = s.stack.last();
        if top.files.len() > 0 {
            (EngineView { phase: Phase::RemovingFile, ..s }, Action::RemoveFile(top.files[0].path))
        } else if top.dirs.len() > 0 {
            let child = top.dirs[0];
            let parent = FrameView { dirs: top.dirs.drop_first(), ..top };
            (
                EngineView {
                    phase: Phase::Listing,
                    stack: s.stack.drop_last().push(parent).push(FrameView::fresh(child)),
                    ..s
                },
                Action::ReadDir(child),
            )
        } else {
            (EngineView { phase: Phase::RemovingDir, ..s }, Action::RemoveDir(top.dir))
        }
    }
}

/// The step `spec_proceed` with the reports of what went before it.
pub open spec fn proceed_with(s: EngineView, reports: Seq<Report>) -> Outcome {
    let (state, action) = spec_proceed(s);
    Outcome { state, action, reports: voiced(s.verbose, reports) }
}

/// The answer to the metadata query on the root. A root whose metadata
/// cannot be read, or that is no directory, ends the run at once, with the
/// counters untouched; a directory gets listed.
pub open spec fn on_metadata(s: EngineView, answer: Result<EntryMeta, String>) -> Outcome
    recommends
        s.stack.len() > 0,
{
    let root = s.stack.last().dir;
    let failed = EngineView { phase: Phase::Failed, stack: Seq::empty(), ..s };
    match answer {
        Err(cause) => Outcome {
            state: failed,
            action: Action::Finish(Err(DeletionError::Access { path: root, cause })),
            reports: Seq::empty(),
        },
        Ok(meta) => if meta.is_dir {
            Outcome {
                state: EngineView { phase: Phase::Listing, ..s },
                action: Action::ReadDir(root),
                reports: voiced(s.verbose, seq![Report::Started { path: root }]),
            }
        } else {
            Outcome {
                state: failed,
                action: Action::Finish(Err(DeletionError::InvalidTarget { path: root })),
                reports: Seq::empty(),
            }
        },
    }
}

/// The answer to the listing of the topmost directory. A listing that
/// failed counts as one failure and the directory is taken to be empty.
/// Otherwise each child whose metadata could not be read counts as one
/// failure and is skipped, and the others wait in the frame as files and
/// subdirectories.
pub open spec fn on_listing(s: EngineView, answer: Result<Seq<DirEntry>, String>) -> Outcome
    recommends
        s.stack.len() > 0,
{
    let top = s.stack.last();
    match answer {
        Err(cause) => proceed_with(
            s.with_stats(s.stats.plus(Tally::failures(1))),
            seq![Report::ListFailed { path: top.dir, cause }],
        ),
        Ok(entries) => {
            let failures = metadata_failures(entries);
            let listed = FrameView {
                dir: top.dir,
                files: classify_files(entries),
                dirs: classify_dirs(entries),
            };
            proceed_with(
                s.with_top(listed).with_stats(s.stats.plus(Tally::failures(failures.len()))),
                failures,
            )
        },
    }
}

/// The answer to the removal of the first waiting file of the topmost
/// frame. A removed file counts as one file and its length as bytes freed;
/// one that could not be removed counts as one failure. Either way the file
/// waits no longer.
pub open spec fn on_file_removed(s: EngineView, answer: Result<(), String>) -> Outcome
    recommends
        s.stack.len() > 0,
        s.stack.last().files.len() > 0,
{
    let top = s.stack.last();
    let file = top.files[0];
    let next = s.with_top(FrameView { files: top.files.drop_first(), ..top });
    match answer {
        Ok(_) => proceed_with(
            next.with_stats(s.stats.plus(Tally::file(file.size as nat))),
            seq![Report::FileDeleted { path: file.path }],
        ),
        Err(cause) => proceed_with(
            next.with_stats(s.stats.plus(Tally::failures(1))),
            seq![Report::FileFailed { path: file.path, cause }],
        ),
    }
}

/// The answer to the removal of the topmost directory. A removed directory
/// counts as one directory, one that could not be removed as one failure.
/// Either way its frame is done.
pub open spec fn on_dir_removed(s: EngineView, answer: Result<(), String>) -> Outcome
    recommends
        s.stack.len() > 0,
{
    let top = s.stack.last();
    let next = EngineView { stack: s.stack.drop_last(), ..s };
    match answer {
        Ok(_) => proceed_with(
            next.with_stats(s.stats.plus(Tally::dirs(1))),
            seq![Report::DirDeleted { path: top.dir }],
        ),
        Err(cause) => proceed_with(
            next.with_stats(s.stats.plus(Tally::failures(1))),
            seq![Report::DirFailed { path: top.dir, cause }],
        ),
    }
}

/// One step of the engine: the state, action and reports that follow from
/// state `s` on `event`. An event that does not answer the request that is
/// outstanding in `s` changes nothing.
pub open spec fn spec_step(s: EngineView, event: EventView) -> Outcome {
    match event {
        EventView::Metadata(answer) => if s.phase == Phase::Validating && s.stack.len() > 0 {
            on_metadata(s, answer)
        } else {
            out_of_turn(s)
        },
        EventView::Listing(answer) => if s.phase == Phase::Listing && s.stack.len() > 0 {
            on_listing(s, answer)
        } else {
            out_of_turn(s)
        },
        EventView::Removed(answer) => if s.phase == Phase::RemovingFile && s.stack.len() > 0
            && s.stack.last().files.len() > 0 {
            on_file_removed(s, answer)
        } else if s.phase == Phase::RemovingDir && s.stack.len() > 0 {
            on_dir_removed(s, answer)
        } else {
            out_of_turn(s)
        },
    }
}

} // verus!
