//! What a verbose engine tells in the course of a run: exactly what the
//! script has to report, in the order of the dialogue. A quiet engine tells
//! nothing.
use crate::laws::conformance::{
    emptied, files_done, files_tally, frame_done, lemma_classify_first, lemma_dir, lemma_files,
    lemma_opened, listed, opening,
};
use crate::machine::{
    classify_dirs, classify_files, metadata_failures, spec_proceed, spec_start, spec_step,
    voiced, EngineView, FrameView, Phase,
};
use crate::protocol::{Action, EventView, Report};
use crate::script::{
    dialogue, dirs_dialogue, dirs_reports, entries, files_dialogue, files_reports, follow,
    outcome_report, reports_of, run_dialogue, run_reports, tally, told, Exchange, Node,
};
use vstd::prelude::*;

verus! {

/// What is told over a dialogue made of two parts is what is told over the
/// first part and then, from where that ends, over the second.
pub proof fn lemma_told_concat(
    s: EngineView,
    pending: Action,
    first: Seq<Exchange>,
    second: Seq<Exchange>,
)
    ensures
        told(s, pending, first + second) == told(s, pending, first) + match follow(
            s,
            pending,
            first,
        ) {
            Some((mid, asked)) => told(mid, asked, second),
            None => Seq::empty(),
        },
    decreases first.len(),
{
    if first.len() > 0 {
        assert((first + second).drop_first() =~= first.drop_first() + second);
        if first[0].request == pending {
            let next = spec_step(s, first[0].answer);
            lemma_told_concat(next.state, next.action, first.drop_first(), second);
            let rest = match follow(s, pending, first) {
                Some((mid, asked)) => told(mid, asked, second),
                None => Seq::empty(),
            };
            assert(told(s, pending, first + second) =~= told(s, pending, first) + rest);
        } else {
            assert(told(s, pending, first + second) =~= told(s, pending, first) + Seq::empty());
        }
    } else {
        assert(first + second =~= second);
        assert(told(s, pending, second) =~= Seq::empty() + told(s, pending, second));
    }
}

/// What is told from `s` on, where the last answer has been taken in.
spec fn told_on(s: EngineView, dialogue: Seq<Exchange>) -> Seq<Report> {
    told(spec_proceed(s).0, spec_proceed(s).1, dialogue)
}

/// Of each file in turn the engine tells how its removal ended.
proof fn lemma_files_told(at: EngineView, nodes: Seq<Node>)
    requires
        at.stack.len() > 0,
        at.stack.last().files == classify_files(entries(nodes)),
    ensures
        told_on(at, files_dialogue(nodes)) == voiced(at.verbose, files_reports(nodes)),
    decreases nodes.len(),
{
    let top = at.stack.last();
    if nodes.len() > 0 {
        let rest = nodes.drop_first();
        lemma_classify_first(nodes);
        match nodes[0] {
            Node::File { removal, .. } => {
                let (state, asked) = spec_proceed(at);
                let heard = spec_step(state, EventView::Removed(removal));
                let next = state.with_top(
                    FrameView { files: top.files.drop_first(), ..top },
                ).with_stats(at.stats.plus(tally(nodes[0])));
                assert(next.stack.last().files =~= classify_files(entries(rest)));
                assert(files_dialogue(nodes).drop_first() =~= files_dialogue(rest));
                lemma_files_told(next, rest);
                assert(heard.reports =~= voiced(at.verbose, seq![outcome_report(nodes[0])]));
                assert(told_on(at, files_dialogue(nodes)) =~= heard.reports + told_on(
                    next,
                    files_dialogue(rest),
                ));
                assert(voiced(at.verbose, files_reports(nodes)) =~= voiced(
                    at.verbose,
                    seq![outcome_report(nodes[0])],
                ) + voiced(at.verbose, files_reports(rest)));
            },
            _ => {
                lemma_files_told(at, rest);
            },
        }
    }
}

/// Of each subdirectory in turn the engine tells all that there is to
/// report of it.
proof fn lemma_dirs_told(at: EngineView, nodes: Seq<Node>)
    requires
        at.stack.len() > 0,
        at.stack.last().files.len() == 0,
        at.stack.last().dirs == classify_dirs(entries(nodes)),
    ensures
        told_on(at, dirs_dialogue(nodes)) == voiced(at.verbose, dirs_reports(nodes)),
    decreases nodes, 0nat,
{
    let top = at.stack.last();
    if nodes.len() > 0 {
        let rest = nodes.drop_first();
        lemma_classify_first(nodes);
        match nodes[0] {
            Node::Dir { .. } => {
                let (state, asked) = spec_proceed(at);
                let parent = FrameView { dirs: top.dirs.drop_first(), ..top };
                assert(parent.dirs =~= classify_dirs(entries(rest)));
                lemma_dir(state, nodes[0]);
                lemma_dir_told(state, nodes[0]);
                let next = frame_done(state, tally(nodes[0]));
                lemma_told_concat(state, asked, dialogue(nodes[0]), dirs_dialogue(rest));
                lemma_dirs_told(next, rest);
                assert(voiced(at.verbose, dirs_reports(nodes)) =~= voiced(
                    at.verbose,
                    reports_of(nodes[0]),
                ) + voiced(at.verbose, dirs_reports(rest)));
            },
            _ => {
                lemma_dirs_told(at, rest);
            },
        }
    }
}

/// Of a directory the engine tells all that there is to report of it, in
/// the order of the dialogue.
proof fn lemma_dir_told(s: EngineView, node: Node)
    requires
        node is Dir,
        s.phase == Phase::Listing,
        s.stack.len() > 0,
        s.stack.last() == FrameView::fresh(node.path()),
    ensures
        told(s, Action::ReadDir(node.path()), dialogue(node)) == voiced(
            s.verbose,
            reports_of(node),
        ),
    decreases node, 1nat,
{
    let last = seq![node.removal_exchange()];
    let closing = seq![outcome_report(node)];
    let heard = spec_step(s, node.listing_exchange().answer);
    let middle = emptied(s, node);
    assert(dialogue(node) =~= opening(node) + last);
    lemma_opened(s, node);
    lemma_told_concat(s, Action::ReadDir(node.path()), opening(node), last);
    // the last turn
    let (state, asked) = spec_proceed(middle);
    let closed = spec_step(state, last[0].answer);
    assert(asked == last[0].request);
    assert(told(closed.state, closed.action, last.drop_first()) =~= Seq::<Report>::empty());
    assert(told_on(middle, last) =~= closed.reports);
    assert(closed.reports =~= voiced(s.verbose, closing));
    // the turns before it
    assert(told(s, Action::ReadDir(node.path()), opening(node)) == heard.reports + told(
        heard.state,
        heard.action,
        opening(node).drop_first(),
    ));
    match node {
        Node::Dir { path, listing: Ok(children), .. } => {
            let files = files_dialogue(children);
            let dirs = dirs_dialogue(children);
            let failures = metadata_failures(entries(children));
            assert(opening(node).drop_first() =~= files + dirs);
            let begun = listed(s, children);
            lemma_files(begun, children);
            lemma_files_told(begun, children);
            lemma_told_concat(heard.state, heard.action, files, dirs);
            lemma_dirs_told(files_done(begun, files_tally(children)), children);
            assert(voiced(s.verbose, reports_of(node)) =~= voiced(s.verbose, failures) + voiced(
                s.verbose,
                files_reports(children),
            ) + voiced(s.verbose, dirs_reports(children)) + voiced(s.verbose, closing));
        },
        Node::Dir { path, listing: Err(cause), .. } => {
            assert(opening(node).drop_first() =~= Seq::<Exchange>::empty());
            assert(voiced(s.verbose, reports_of(node)) =~= voiced(
                s.verbose,
                seq![Report::ListFailed { path, cause }],
            ) + voiced(s.verbose, closing));
        },
        _ => {},
    }
}

/// A verbose engine tells, in the course of a run, exactly what the script
/// has to report, in the order of the dialogue: that the run has started,
/// each child whose metadata could not be read as its directory is listed,
/// and the outcome of each removal as it comes. A quiet engine tells
/// nothing.
pub proof fn lemma_run_tells_script(engine: EngineView, root: Node)
    requires
        !engine.busy(),
        root is Dir,
    ensures
        ({
            let (begun, first) = spec_start(engine, root.path());
            told(begun, first, run_dialogue(root)) == voiced(engine.verbose, run_reports(root))
        }),
{
    let (begun, first) = spec_start(engine, root.path());
    let next = spec_step(begun, EventView::Metadata(root.meta()));
    assert(run_dialogue(root).drop_first() =~= dialogue(root));
    assert(next.state.stack.drop_last() =~= Seq::<FrameView>::empty());
    lemma_dir_told(next.state, root);
    assert(voiced(engine.verbose, run_reports(root)) =~= voiced(
        engine.verbose,
        seq![Report::Started { path: root.path() }],
    ) + voiced(engine.verbose, reports_of(root)));
}

} // verus!
