//! What holds of every state and of every single step.
use crate::machine::{
    lemma_classify_concat, lemma_classify_none, lemma_classify_one, metadata_failures,
    spec_proceed, spec_start, spec_step, EngineView, FrameView, Phase,
};
use crate::protocol::{Action, DirEntry, EventView, Report};
use crate::stats::{lemma_plus_zero, Tally};
use std::path::PathBuf;
use vstd::prelude::*;

verus! {

/// What comes next leaves a state coherent, if below its topmost frame no
/// file waits.
proof fn lemma_proceed_is_coherent(s: EngineView)
    requires
        forall|i: int| 0 <= i < s.stack.len() - 1 ==> (#[trigger] s.stack[i]).files.len() == 0,
    ensures
        spec_proceed(s).0.coherent(),
{
    let next = spec_proceed(s).0;
    if s.stack.len() > 0 {
        let top = s.stack.last();
        if top.files.len() == 0 && top.dirs.len() > 0 {
            let parent = FrameView { dirs: top.dirs.drop_first(), ..top };
            assert forall|i: int| 0 <= i < next.stack.len() - 1 implies (
            #[trigger] next.stack[i]).files.len() == 0 by {
                if i < s.stack.len() - 1 {
                    assert(next.stack[i] == s.stack[i]);
                } else {
                    assert(next.stack[i] == parent);
                }
            }
        }
    }
}

/// Coherence is kept: a fresh engine is coherent, and so is every state
/// that a coherent one comes into by the beginning of a run or by a step,
/// whatever the event.
pub proof fn lemma_coherence_is_kept(s: EngineView, root: PathBuf, event: EventView)
    requires
        s.coherent(),
    ensures
        EngineView::idle(s.verbose).coherent(),
        spec_start(s, root).0.coherent(),
        spec_step(s, event).state.coherent(),
{
    let next = spec_step(s, event).state;
    if s.awaits(event) {
        match event {
            EventView::Metadata(_) => {},
            EventView::Listing(answer) => {
                let listed = FrameView {
                    dir: s.stack.last().dir,
                    files: crate::machine::classify_files(answer->Ok_0),
                    dirs: crate::machine::classify_dirs(answer->Ok_0),
                };
                let before = if answer is Ok {
                    s.with_top(listed)
                } else {
                    s
                };
                assert forall|i: int| 0 <= i < before.stack.len() - 1 implies (
                #[trigger] before.stack[i]).files.len() == 0 by {
                    assert(before.stack[i] == s.stack[i]);
                }
                lemma_proceed_is_coherent(before);
                lemma_proceed_is_coherent(
                    before.with_stats(s.stats.plus(Tally::failures(1))),
                );
                lemma_proceed_is_coherent(
                    before.with_stats(
                        s.stats.plus(
                            Tally::failures(
                                crate::machine::metadata_failures(answer->Ok_0).len(),
                            ),
                        ),
                    ),
                );
            },
            EventView::Removed(answer) => {
                let top = s.stack.last();
                let before = if s.phase == Phase::RemovingFile {
                    s.with_top(FrameView { files: top.files.drop_first(), ..top })
                } else {
                    EngineView { stack: s.stack.drop_last(), ..s }
                };
                assert forall|i: int| 0 <= i < before.stack.len() - 1 implies (
                #[trigger] before.stack[i]).files.len() == 0 by {
                    assert(before.stack[i] == s.stack[i]);
                }
                lemma_proceed_is_coherent(
                    before.with_stats(s.stats.plus(Tally::failures(1))),
                );
                lemma_proceed_is_coherent(before.with_stats(s.stats.plus(Tally::dirs(1))));
                lemma_proceed_is_coherent(
                    before.with_stats(s.stats.plus(Tally::file(top.files[0].size as nat))),
                );
            },
        }
    }
}

/// The answer that a coherent engine waits for is never refused: only an
/// event of another kind, or any event while no run is under way, is out of
/// turn, and then nothing changes.
pub proof fn lemma_awaited_answer_is_taken(s: EngineView, event: EventView)
    requires
        s.coherent(),
    ensures
        s.awaits(event) <==> spec_step(s, event).action != Action::OutOfTurn,
        !s.awaits(event) ==> spec_step(s, event).state == s && spec_step(s, event).reports.len()
            == 0,
{
}

/// A step asks for the removal of a directory only when nothing waits in
/// that directory's frame any more: each file and each subdirectory that
/// its listing showed has had its turn.
pub proof fn lemma_directory_is_removed_last(s: EngineView, event: EventView)
    requires
        spec_step(s, event).action is RemoveDir,
    ensures
        ({
            let next = spec_step(s, event);
            &&& next.state.phase == Phase::RemovingDir
            &&& next.state.stack.len() > 0
            &&& next.state.stack.last().exhausted()
            &&& next.action == Action::RemoveDir(next.state.stack.last().dir)
        }),
{
}

/// No step takes anything off a counter: what a step does to the counters
/// is to add a tally to them.
pub proof fn lemma_step_only_adds(s: EngineView, event: EventView)
    ensures
        exists|added: Tally| spec_step(s, event).state.stats == #[trigger] s.stats.plus(added),
{
    let next = spec_step(s, event).state.stats;
    lemma_plus_zero(s.stats);
    if next == s.stats {
        assert(next == s.stats.plus(Tally::zero()));
    } else {
        match event {
            EventView::Metadata(_) => {},
            EventView::Listing(answer) => {
                let n = if answer is Ok {
                    crate::machine::metadata_failures(answer->Ok_0).len()
                } else {
                    1
                };
                assert(next == s.stats.plus(Tally::failures(n)));
            },
            EventView::Removed(answer) => {
                if answer is Err {
                    assert(next == s.stats.plus(Tally::failures(1)));
                } else if s.phase == Phase::RemovingFile {
                    let size = s.stack.last().files[0].size;
                    assert(next == s.stats.plus(Tally::file(size as nat)));
                } else {
                    assert(next == s.stats.plus(Tally::dirs(1)));
                }
            },
        }
    }
}

/// How many of `reports` tell of a failure.
pub open spec fn failures_in(reports: Seq<Report>) -> nat {
    reports.filter(|report: Report| report.is_failure()).len()
}

/// How many of `reports` tell of something removed.
pub open spec fn removals_in(reports: Seq<Report>) -> nat {
    reports.filter(|report: Report| report.is_progress()).len()
}

/// The reports of the children whose metadata could not be read are
/// reports of failures, all of them.
proof fn lemma_metadata_failures_are_failures(entries: Seq<DirEntry>)
    ensures
        failures_in(metadata_failures(entries)) == metadata_failures(entries).len(),
        removals_in(metadata_failures(entries)) == 0,
    decreases entries.len(),
{
    reveal_with_fuel(Seq::filter, 2);
    if entries.len() == 0 {
        lemma_classify_none();
    } else {
        let rest = entries.drop_last();
        let one = seq![entries.last()];
        assert(entries =~= rest + one);
        lemma_classify_concat(rest, one);
        lemma_classify_one(entries.last());
        lemma_metadata_failures_are_failures(rest);
        let told = metadata_failures(rest);
        let last = metadata_failures(one);
        Seq::filter_distributes_over_add(told, last, |report: Report| report.is_failure());
        Seq::filter_distributes_over_add(told, last, |report: Report| report.is_progress());
        if last.len() > 0 {
            assert(last.drop_last() =~= Seq::empty());
        }
    }
}

/// Each failure is counted and told: what a step of a verbose engine adds
/// to the counters holds as many failures as the step hands out reports of
/// failures, and as many removed files and directories as it hands out
/// reports of progress.
pub proof fn lemma_counts_match_reports(s: EngineView, event: EventView)
    requires
        s.verbose,
    ensures
        ({
            let next = spec_step(s, event);
            exists|added: Tally|
                {
                    &&& next.state.stats == #[trigger] s.stats.plus(added)
                    &&& added.errors == failures_in(next.reports)
                    &&& added.files + added.dirs == removals_in(next.reports)
                }
        }),
{
    reveal_with_fuel(Seq::filter, 2);
    let next = spec_step(s, event);
    let none = Seq::<Report>::empty();
    assert(failures_in(none) == 0 && removals_in(none) == 0);
    if next.reports.len() == 1 {
        assert(next.reports.drop_last() =~= none);
    }
    lemma_plus_zero(s.stats);
    let added = if next.action is OutOfTurn {
        Tally::zero()
    } else {
        match event {
            EventView::Metadata(_) => Tally::zero(),
            EventView::Listing(Ok(listing)) => Tally::failures(metadata_failures(listing).len()),
            EventView::Removed(Ok(_)) => if s.phase == Phase::RemovingFile {
                Tally::file(s.stack.last().files[0].size as nat)
            } else {
                Tally::dirs(1)
            },
            _ => Tally::failures(1),
        }
    };
    match event {
        EventView::Listing(Ok(listing)) => {
            lemma_metadata_failures_are_failures(listing);
            if metadata_failures(listing).len() == 0 {
                assert(metadata_failures(listing) =~= none);
            }
        },
        _ => {},
    }
    assert(next.state.stats == s.stats.plus(added));
    assert(added.errors == failures_in(next.reports));
    assert(added.files + added.dirs == removals_in(next.reports));
}

/// A quiet engine reports nothing.
pub proof fn lemma_quiet_engine_reports_nothing(s: EngineView, event: EventView)
    requires
        !s.verbose,
    ensures
        spec_step(s, event).reports.len() == 0,
        !spec_step(s, event).state.verbose,
{
}

} // verus!
