//! The deletion engine: the state machine of [`crate::machine`] in
//! executable form.
//!
//! The engine performs no filesystem operation itself. A run begins with
//! [`DeletionEngine::delete_directory`], which names the first operation;
//! the caller performs it and hands its outcome to [`DeletionEngine::step`],
//! which names the next, until the action is [`Action::Finish`].
use crate::machine::{
    classify_dirs, classify_files, lemma_classify_concat, lemma_classify_none,
    lemma_classify_one, metadata_failures, on_dir_removed, on_file_removed, on_listing,
    on_metadata, spec_proceed, spec_start, spec_step, voiced, EngineView, FrameView, Phase, Stage,
};
use crate::laws::states::lemma_coherence_is_kept;
use crate::path::clone_path;
use crate::protocol::{Action, DeletionError, DirEntry, EntryMeta, Event, PendingFile, Report, Step};
use crate::stats::{lemma_plus_twice, lemma_plus_zero, DeletionStats, Tally};
use std::path::PathBuf;
use vstd::prelude::*;

verus! {

/// The part of `s` from index `next` on; nothing if `next` lies beyond it.
spec fn remaining<T>(s: Seq<T>, next: usize) -> Seq<T> {
    if next <= s.len() {
        s.skip(next as int)
    } else {
        Seq::empty()
    }
}

/// A directory under way. The files and subdirectories found by its listing
/// stay in place; two cursors mark how far each list has been worked off.
struct Frame {
    dir: PathBuf,
    files: Vec<PendingFile>,
    next_file: usize,
    dirs: Vec<PathBuf>,
    next_dir: usize,
}

impl View for Frame {
    type V = FrameView;

    closed spec fn view(&self) -> FrameView {
        FrameView {
            dir: self.dir,
            files: remaining(self.files@, self.next_file),
            dirs: remaining(self.dirs@, self.next_dir),
        }
    }
}

impl Frame {
    /// The frame of a directory with these files and subdirectories waiting.
    fn listed(dir: PathBuf, files: Vec<PendingFile>, dirs: Vec<PathBuf>) -> (frame: Frame)
        ensures
            frame@ == (FrameView { dir, files: files@, dirs: dirs@ }),
    {
        assert(files@.skip(0) =~= files@);
        assert(dirs@.skip(0) =~= dirs@);
        Frame { dir, files, next_file: 0, dirs, next_dir: 0 }
    }

    /// The frame of a directory that has not been listed yet.
    fn fresh(dir: PathBuf) -> (frame: Frame)
        ensures
            frame@ == FrameView::fresh(dir),
    {
        Frame::listed(dir, Vec::new(), Vec::new())
    }

    /// The first waiting file, if any.
    fn first_file(&self) -> (file: Option<&PendingFile>)
        ensures
            self@.files.len() == 0 <==> file is None,
            file matches Some(f) ==> *f == self@.files[0],
    {
        if self.next_file < self.files.len() {
            Some(&self.files[self.next_file])
        } else {
            None
        }
    }

    /// Strikes the first waiting file off and hands it out.
    fn take_file(&mut self) -> (file: PendingFile)
        requires
            old(self)@.files.len() > 0,
        ensures
            file == old(self)@.files[0],
            final(self)@ == (FrameView { files: old(self)@.files.drop_first(), ..old(self)@ }),
    {
        assert(self.next_file < self.files.len());
        assert(self.files@.skip(self.next_file as int).drop_first() =~= self.files@.skip(
            self.next_file as int + 1,
        ));
        let first = &self.files[self.next_file];
        let file = PendingFile { path: clone_path(&first.path), size: first.size };
        self.next_file = self.next_file + 1;
        file
    }

    /// The first waiting subdirectory, if any.
    fn first_dir(&self) -> (dir: Option<&PathBuf>)
        ensures
            self@.dirs.len() == 0 <==> dir is None,
            dir matches Some(d) ==> *d == self@.dirs[0],
    {
        if self.next_dir < self.dirs.len() {
            Some(&self.dirs[self.next_dir])
        } else {
            None
        }
    }

    /// Strikes the first waiting subdirectory off.
    fn skip_dir(&mut self)
        requires
            old(self)@.dirs.len() > 0,
        ensures
            final(self)@ == (FrameView { dirs: old(self)@.dirs.drop_first(), ..old(self)@ }),
    {
        assert(self.next_dir < self.dirs.len());
        assert(self.dirs@.skip(self.next_dir as int).drop_first() =~= self.dirs@.skip(
            self.next_dir as int + 1,
        ));
        self.next_dir = self.next_dir + 1;
    }
}

/// The engine of one deletion run: the counters, the verbosity, and how far
/// the traversal has come.
pub struct DeletionEngine {
    stats: DeletionStats,
    verbose: bool,
    phase: Phase,
    stack: Vec<Frame>,
}

impl View for DeletionEngine {
    type V = EngineView;

    closed spec fn view(&self) -> EngineView {
        EngineView {
            verbose: self.verbose,
            stats: self.stats,
            phase: self.phase,
            stack: self.stack@.map_values(|f: Frame| f@),
        }
    }
}

/// Sorts the children of a listed directory into files and subdirectories,
/// counts each child whose metadata could not be read as one failure and,
/// if `verbose`, appends a report of it to `reports`.
fn classify(
    entries: Vec<DirEntry>,
    verbose: bool,
    stats: &mut DeletionStats,
    reports: &mut Vec<Report>,
) -> (sorted: (Vec<PendingFile>, Vec<PathBuf>))
    ensures
        sorted.0@ == classify_files(entries@),
        sorted.1@ == classify_dirs(entries@),
        *final(stats) == old(stats).plus(Tally::failures(metadata_failures(entries@).len())),
        final(reports)@ == old(reports)@ + voiced(
            verbose,
            metadata_failures(entries@),
        ),
{
    let mut files: Vec<PendingFile> = Vec::new();
    let mut dirs: Vec<PathBuf> = Vec::new();
    let ghost all = entries@;
    let ghost stats0 = *stats;
    let ghost reports0 = reports@;
    proof {
        lemma_classify_none();
        lemma_plus_zero(stats0);
    }
    for entry in it: entries
        invariant
            it.seq() == all,
            files@ == classify_files(all.take(it.index() as int)),
            dirs@ == classify_dirs(all.take(it.index() as int)),
            *stats == stats0.plus(
                Tally::failures(metadata_failures(all.take(it.index() as int)).len()),
            ),
            reports@ == reports0 + voiced(
                verbose,
                metadata_failures(all.take(it.index() as int)),
            ),
    {
        proof {
            let i = it.index() as int;
            assert(all.take(i + 1) =~= all.take(i) + seq![entry]);
            lemma_classify_concat(all.take(i), seq![entry]);
            lemma_classify_one(entry);
        }
        match entry.meta {
            Ok(meta) => {
                if meta.is_dir {
                    dirs.push(entry.path);
                } else {
                    files.push(PendingFile { path: entry.path, size: meta.len });
                }
            },
            Err(cause) => {
                proof {
                    lemma_plus_twice(
                        stats0,
                        Tally::failures(metadata_failures(all.take(it.index() as int)).len()),
                        Tally::failures(1),
                    );
                }
                stats.increment_errors();
                if verbose {
                    reports.push(Report::MetadataFailed { path: entry.path, cause });
                }
            },
        }
    }
    proof {
        assert(all.take(all.len() as int) =~= all);
    }
    (files, dirs)
}

impl DeletionEngine {
    /// An engine that has not been used: idle, with all counters at zero.
    pub fn new(verbose: bool) -> (engine: DeletionEngine)
        ensures
            engine@ == EngineView::idle(verbose),
            engine@.coherent(),
    {
        let engine = DeletionEngine {
            stats: DeletionStats::new(),
            verbose,
            phase: Phase::Idle,
            stack: Vec::new(),
        };
        assert(engine@.stack =~= Seq::empty());
        engine
    }

    /// The counters as they stand.
    pub fn get_stats(&self) -> (stats: &DeletionStats)
        ensures
            *stats == self@.stats,
    {
        &self.stats
    }

    /// Whether the engine hands out reports.
    pub fn is_verbose(&self) -> (verbose: bool)
        ensures
            verbose == self@.verbose,
    {
        self.verbose
    }

    /// The stage of the run.
    pub fn stage(&self) -> (stage: Stage)
        ensures
            stage == self@.stage(),
    {
        match self.phase {
            Phase::Idle => Stage::Idle,
            Phase::Validating => Stage::Validating,
            Phase::Listing => Stage::Traversing,
            Phase::RemovingFile => Stage::Traversing,
            Phase::RemovingDir => if self.stack.len() <= 1 {
                Stage::RemovingRoot
            } else {
                Stage::Traversing
            },
            Phase::Completed => Stage::Completed,
            Phase::Failed => Stage::Failed,
        }
    }

    /// Takes the topmost frame off the stack.
    fn pop_frame(&mut self) -> (top: Option<Frame>)
        ensures
            old(self)@.stack.len() == 0 ==> top is None && final(self)@ == old(self)@,
            old(self)@.stack.len() > 0 ==> top is Some && top->0@ == old(self)@.stack.last()
                && final(self)@ == (EngineView {
                stack: old(self)@.stack.drop_last(),
                ..old(self)@
            }),
    {
        let top = self.stack.pop();
        proof {
            if top is Some {
                assert(self@.stack =~= old(self)@.stack.drop_last());
            }
        }
        top
    }

    /// Puts a frame on top of the stack.
    fn push_frame(&mut self, frame: Frame)
        ensures
            final(self)@ == (EngineView { stack: old(self)@.stack.push(frame@), ..old(self)@ }),
    {
        self.stack.push(frame);
        assert(self@.stack =~= old(self)@.stack.push(frame@));
    }

    /// Begins a run on `root`, which the caller has resolved to an absolute
    /// path: the first action asks for the root's metadata. While a run is
    /// under way the call is refused with [`Action::OutOfTurn`].
    pub fn delete_directory(&mut self, root: PathBuf) -> (action: Action)
        ensures
            (final(self)@, action) == spec_start(old(self)@, root),
            old(self)@.coherent() ==> final(self)@.coherent(),
    {
        match self.phase {
            Phase::Validating | Phase::Listing | Phase::RemovingFile | Phase::RemovingDir => {
                Action::OutOfTurn
            },
            _ => {
                let query = clone_path(&root);
                self.stack = Vec::new();
                self.stack.push(Frame::fresh(root));
                self.phase = Phase::Validating;
                assert(self@.stack =~= seq![FrameView::fresh(root)]);
                Action::Stat(query)
            },
        }
    }

    /// Names what comes next, once the last answer has been taken in.
    fn proceed(&mut self) -> (action: Action)
        ensures
            (final(self)@, action) == spec_proceed(old(self)@),
    {
        match self.pop_frame() {
            None => {
                self.phase = Phase::Completed;
                Action::Finish(Ok(()))
            },
            Some(mut top) => {
                let ghost below = self@.stack;
                assert(below.push(top@) =~= old(self)@.stack);
                if let Some(file) = top.first_file() {
                    let path = clone_path(&file.path);
                    self.push_frame(top);
                    self.phase = Phase::RemovingFile;
                    Action::RemoveFile(path)
                } else if let Some(dir) = top.first_dir() {
                    let child = clone_path(dir);
                    let query = clone_path(dir);
                    top.skip_dir();
                    self.push_frame(top);
                    self.push_frame(Frame::fresh(child));
                    self.phase = Phase::Listing;
                    Action::ReadDir(query)
                } else {
                    let path = clone_path(&top.dir);
                    self.push_frame(top);
                    self.phase = Phase::RemovingDir;
                    Action::RemoveDir(path)
                }
            },
        }
    }

    /// Hands a report of progress on to the sink, if the engine is verbose.
    fn update_progress(&self, reports: &mut Vec<Report>, report: Report)
        requires
            report.is_progress(),
        ensures
            final(reports)@ == old(reports)@ + voiced(self@.verbose, seq![report]),
    {
        if self.verbose {
            reports.push(report);
        }
    }

    /// Hands a line for the log on to the sink, if the engine is verbose.
    fn log_verbose(&self, reports: &mut Vec<Report>, report: Report)
        requires
            !report.is_progress(),
        ensures
            final(reports)@ == old(reports)@ + voiced(self@.verbose, seq![report]),
    {
        if self.verbose {
            reports.push(report);
        }
    }

    /// Takes in the metadata of the root: a root that cannot be read or is
    /// no directory ends the run, a directory gets listed.
    fn validate(&mut self, root: Frame, answer: Result<EntryMeta, String>) -> (out: Step)
        requires
            old(self).phase == Phase::Validating,
        ensures
            final(self)@ == on_metadata(old(self)@.pushed(root@), answer).state,
            out.action == on_metadata(old(self)@.pushed(root@), answer).action,
            out.reports@ == on_metadata(old(self)@.pushed(root@), answer).reports,
    {
        let mut reports: Vec<Report> = Vec::new();
        match answer {
            Ok(meta) if meta.is_dir => {
                let path = clone_path(&root.dir);
                self.log_verbose(&mut reports, Report::Started { path: clone_path(&root.dir) });
                self.push_frame(root);
                self.phase = Phase::Listing;
                Step { action: Action::ReadDir(path), reports }
            },
            Ok(_) => {
                self.stack = Vec::new();
                self.phase = Phase::Failed;
                assert(self@.stack =~= Seq::empty());
                let error = DeletionError::InvalidTarget { path: root.dir };
                Step { action: Action::Finish(Err(error)), reports }
            },
            Err(cause) => {
                self.stack = Vec::new();
                self.phase = Phase::Failed;
                assert(self@.stack =~= Seq::empty());
                let error = DeletionError::Access { path: root.dir, cause };
                Step { action: Action::Finish(Err(error)), reports }
            },
        }
    }

    /// Takes in the listing of the directory `top`: sorts its children into
    /// the files and subdirectories that wait in its frame, counts what
    /// failed, and goes on with the first of them.
    fn delete_directory_contents(
        &mut self,
        top: Frame,
        answer: Result<Vec<DirEntry>, String>,
    ) -> (out: Step)
        ensures
            final(self)@ == on_listing(old(self)@.pushed(top@), view_listing(answer)).state,
            out.action == on_listing(old(self)@.pushed(top@), view_listing(answer)).action,
            out.reports@ == on_listing(old(self)@.pushed(top@), view_listing(answer)).reports,
    {
        let mut reports: Vec<Report> = Vec::new();
        assert(old(self)@.pushed(top@).stack.drop_last() =~= old(self)@.stack);
        match answer {
            Err(cause) => {
                self.stats.increment_errors();
                let path = clone_path(&top.dir);
                self.log_verbose(&mut reports, Report::ListFailed { path, cause });
                self.push_frame(top);
            },
            Ok(entries) => {
                let (files, dirs) = classify(entries, self.verbose, &mut self.stats, &mut reports);
                self.push_frame(Frame::listed(top.dir, files, dirs));
            },
        }
        let action = self.proceed();
        Step { action, reports }
    }

    /// Takes in the outcome of the removal of the first waiting file of
    /// `top`: counts the file and its bytes, or the failure, and goes on.
    fn remove_file(&mut self, top: Frame, answer: Result<(), String>) -> (out: Step)
        requires
            top@.files.len() > 0,
        ensures
            final(self)@ == on_file_removed(old(self)@.pushed(top@), answer).state,
            out.action == on_file_removed(old(self)@.pushed(top@), answer).action,
            out.reports@ == on_file_removed(old(self)@.pushed(top@), answer).reports,
    {
        let mut reports: Vec<Report> = Vec::new();
        let mut top = top;
        assert(old(self)@.pushed(top@).stack.drop_last() =~= old(self)@.stack);
        let file = top.take_file();
        self.push_frame(top);
        match answer {
            Ok(_) => {
                proof {
                    lemma_plus_twice(self.stats, Tally::files(1), Tally::bytes(file.size as nat));
                }
                self.stats.increment_files();
                self.stats.add_bytes(file.size);
                self.update_progress(&mut reports, Report::FileDeleted { path: file.path });
            },
            Err(cause) => {
                self.stats.increment_errors();
                self.log_verbose(&mut reports, Report::FileFailed { path: file.path, cause });
            },
        }
        let action = self.proceed();
        Step { action, reports }
    }

    /// Takes in the outcome of the removal of the directory `top`, whose
    /// frame is done: counts the directory, or the failure, and goes on
    /// with what is left in the frame below.
    fn remove_directory(&mut self, top: Frame, answer: Result<(), String>) -> (out: Step)
        ensures
            final(self)@ == on_dir_removed(old(self)@.pushed(top@), answer).state,
            out.action == on_dir_removed(old(self)@.pushed(top@), answer).action,
            out.reports@ == on_dir_removed(old(self)@.pushed(top@), answer).reports,
    {
        let mut reports: Vec<Report> = Vec::new();
        assert(old(self)@.pushed(top@).stack.drop_last() =~= old(self)@.stack);
        let path = top.dir;
        match answer {
            Ok(_) => {
                self.stats.increment_dirs();
                self.update_progress(&mut reports, Report::DirDeleted { path });
            },
            Err(cause) => {
                self.stats.increment_errors();
                self.log_verbose(&mut reports, Report::DirFailed { path, cause });
            },
        }
        let action = self.proceed();
        Step { action, reports }
    }

    /// Takes in the outcome of the operation that was asked for last and
    /// names the next one. No failure of a listing, of a metadata query on
    /// a child or of a removal ends the run: each is counted and the
    /// traversal goes on. Only a root that cannot be read or is no
    /// directory ends it, with an error and before anything is touched.
    /// An event that answers no outstanding request changes nothing and is
    /// answered with [`Action::OutOfTurn`].
    pub fn step(&mut self, event: Event) -> (out: Step)
        ensures
            final(self)@ == spec_step(old(self)@, event@).state,
            out.action == spec_step(old(self)@, event@).action,
            out.reports@ == spec_step(old(self)@, event@).reports,
            old(self)@.coherent() ==> final(self)@.coherent(),
    {
        proof {
            if self@.coherent() {
                lemma_coherence_is_kept(self@, arbitrary(), event@);
            }
        }
        let phase = self.phase;
        let top = match self.pop_frame() {
            Some(top) => top,
            None => { return Step { action: Action::OutOfTurn, reports: Vec::new() }; },
        };
        assert(self@.pushed(top@).stack =~= old(self)@.stack);
        match event {
            Event::Metadata(answer) => {
                if matches!(phase, Phase::Validating) {
                    return self.validate(top, answer);
                }
            },
            Event::Listing(answer) => {
                if matches!(phase, Phase::Listing) {
                    return self.delete_directory_contents(top, answer);
                }
            },
            Event::Removed(answer) => {
                if matches!(phase, Phase::RemovingFile) && top.first_file().is_some() {
                    return self.remove_file(top, answer);
                }
                if matches!(phase, Phase::RemovingDir) {
                    return self.remove_directory(top, answer);
                }
            },
        }
        self.push_frame(top);
        Step { action: Action::OutOfTurn, reports: Vec::new() }
    }
}

/// The outcome of a listing as a mathematical value.
pub open spec fn view_listing(answer: Result<Vec<DirEntry>, String>) -> Result<
    Seq<DirEntry>,
    String,
> {
    match answer {
        Ok(entries) => Ok(entries@),
        Err(cause) => Err(cause),
    }
}

} // verus!
