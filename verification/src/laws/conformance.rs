//! The engine follows the script: whatever the filesystem answers, a run
//! asks for exactly the operations of the post-order dialogue, comes to its
//! end, and has then counted what the script's tally says.
use crate::machine::{
    classify_dirs, classify_files, lemma_classify_concat, lemma_classify_none,
    lemma_classify_one, metadata_failures, spec_proceed, spec_start, spec_step, EngineView,
    FrameView, Phase, Stage,
};
use crate::protocol::{Action, EventView, PendingFile, Report};
use crate::script::{
    dialogue, dirs_dialogue, entries, files_dialogue, follow, run_dialogue, tally, tally_all,
    Exchange, Node,
};
use crate::stats::{lemma_plus_twice, lemma_plus_zero, Tally};
use vstd::prelude::*;

verus! {

/// Following a dialogue made of two parts is following the first part and
/// then, from where that ends, the second.
pub proof fn lemma_follow_concat(
    s: EngineView,
    pending: Action,
    first: Seq<Exchange>,
    second: Seq<Exchange>,
)
    ensures
        follow(s, pending, first + second) == match follow(s, pending, first) {
            Some((mid, asked)) => follow(mid, asked, second),
            None => None,
        },
    decreases first.len(),
{
    if first.len() > 0 {
        assert((first + second).drop_first() =~= first.drop_first() + second);
        if first[0].request == pending {
            let next = spec_step(s, first[0].answer);
            lemma_follow_concat(next.state, next.action, first.drop_first(), second);
        }
    } else {
        assert(first + second =~= second);
    }
}

/// Sorting the listing of `nodes` is sorting its first node and then the
/// rest.
pub(crate) proof fn lemma_classify_first(nodes: Seq<Node>)
    requires
        nodes.len() > 0,
    ensures
        classify_files(entries(nodes)) == match nodes[0] {
            Node::File { path, len, .. } => seq![PendingFile { path, size: len }],
            _ => Seq::empty(),
        } + classify_files(entries(nodes.drop_first())),
        classify_dirs(entries(nodes)) == match nodes[0] {
            Node::Dir { path, .. } => seq![path],
            _ => Seq::empty(),
        } + classify_dirs(entries(nodes.drop_first())),
        metadata_failures(entries(nodes)) == match nodes[0] {
            Node::Unreadable { path, cause } => seq![Report::MetadataFailed { path, cause }],
            _ => Seq::empty(),
        } + metadata_failures(entries(nodes.drop_first())),
{
    let one = seq![nodes[0].entry()];
    assert(entries(nodes) =~= one + entries(nodes.drop_first()));
    lemma_classify_concat(one, entries(nodes.drop_first()));
    lemma_classify_one(nodes[0].entry());
}

/// What the files among `nodes` add to the counters.
pub(crate) open spec fn files_tally(nodes: Seq<Node>) -> Tally
    decreases nodes.len(),
{
    if nodes.len() == 0 {
        Tally::zero()
    } else if nodes[0] is File {
        tally(nodes[0]).plus(files_tally(nodes.drop_first()))
    } else {
        files_tally(nodes.drop_first())
    }
}

/// What the directories among `nodes`, with all that lies below them, add
/// to the counters.
pub(crate) open spec fn dirs_tally(nodes: Seq<Node>) -> Tally
    decreases nodes.len(),
{
    if nodes.len() == 0 {
        Tally::zero()
    } else if nodes[0] is Dir {
        tally(nodes[0]).plus(dirs_tally(nodes.drop_first()))
    } else {
        dirs_tally(nodes.drop_first())
    }
}

/// The tally of a listing does not depend on the order in which its
/// children are dealt with: it is one failure for each child whose
/// metadata cannot be read, and what the files and the directories add.
pub(crate) proof fn lemma_tally_by_kind(nodes: Seq<Node>)
    ensures
        tally_all(nodes) == Tally::failures(metadata_failures(entries(nodes)).len()).plus(
            files_tally(nodes),
        ).plus(dirs_tally(nodes)),
    decreases nodes.len(),
{
    if nodes.len() > 0 {
        lemma_classify_first(nodes);
        lemma_tally_by_kind(nodes.drop_first());
        assert(nodes[0] is Unreadable ==> tally(nodes[0]) == Tally::failures(1));
    } else {
        lemma_classify_none();
    }
}

/// The engine going on from `s`, where the last answer has been taken in,
/// through `dialogue`.
pub(crate) open spec fn resume(s: EngineView, dialogue: Seq<Exchange>) -> Option<(EngineView, Action)> {
    follow(spec_proceed(s).0, spec_proceed(s).1, dialogue)
}

/// `s` with `added` counted and no file waiting in its topmost frame.
pub(crate) open spec fn files_done(s: EngineView, added: Tally) -> EngineView {
    EngineView {
        stats: s.stats.plus(added),
        stack: s.stack.drop_last().push(FrameView { files: Seq::empty(), ..s.stack.last() }),
        ..s
    }
}

/// `s` with `added` counted and no subdirectory waiting in its topmost
/// frame.
pub(crate) open spec fn dirs_done(s: EngineView, added: Tally) -> EngineView {
    EngineView {
        stats: s.stats.plus(added),
        stack: s.stack.drop_last().push(FrameView { dirs: Seq::empty(), ..s.stack.last() }),
        ..s
    }
}

/// `s` with `added` counted and its topmost frame gone.
pub(crate) open spec fn frame_done(s: EngineView, added: Tally) -> EngineView {
    EngineView { stats: s.stats.plus(added), stack: s.stack.drop_last(), ..s }
}

/// From a frame whose waiting files are those of `nodes`, the engine asks
/// for the removal of each in turn, whatever the outcomes, and is then
/// where it would be with no file waiting and the files' tally counted.
pub(crate) proof fn lemma_files(at: EngineView, nodes: Seq<Node>)
    requires
        at.stack.len() > 0,
        at.stack.last().files == classify_files(entries(nodes)),
    ensures
        resume(at, files_dialogue(nodes)) == Some(
            spec_proceed(files_done(at, files_tally(nodes))),
        ),
    decreases nodes.len(),
{
    let top = at.stack.last();
    let end = files_done(at, files_tally(nodes));
    if nodes.len() == 0 {
        lemma_plus_zero(at.stats);
        assert(entries(nodes) =~= Seq::empty());
        lemma_classify_none();
        assert(end.stack =~= at.stack);
    } else {
        let rest = nodes.drop_first();
        lemma_classify_first(nodes);
        match nodes[0] {
            Node::File { len, removal, .. } => {
                // the first file has its turn
                let (state, asked) = spec_proceed(at);
                let heard = spec_step(state, EventView::Removed(removal));
                let next = state.with_top(
                    FrameView { files: top.files.drop_first(), ..top },
                ).with_stats(at.stats.plus(tally(nodes[0])));
                // then the others
                assert(next.stack.last().files =~= classify_files(entries(rest)));
                assert(files_dialogue(nodes).drop_first() =~= files_dialogue(rest));
                lemma_files(next, rest);
                // and the counts add up
                let end_of_rest = files_done(next, files_tally(rest));
                lemma_plus_twice(at.stats, tally(nodes[0]), files_tally(rest));
                assert(end_of_rest.stack =~= end.stack);
            },
            _ => {
                lemma_files(at, rest);
            },
        }
    }
}

/// From a frame without waiting files whose waiting subdirectories are
/// those of `nodes`, the engine goes through each subdirectory in full,
/// one after the other, and is then where it would be with none waiting and
/// their tallies counted.
pub(crate) proof fn lemma_dirs(at: EngineView, nodes: Seq<Node>)
    requires
        at.stack.len() > 0,
        at.stack.last().files.len() == 0,
        at.stack.last().dirs == classify_dirs(entries(nodes)),
    ensures
        resume(at, dirs_dialogue(nodes)) == Some(spec_proceed(dirs_done(at, dirs_tally(nodes)))),
    decreases nodes, 0nat,
{
    let top = at.stack.last();
    let end = dirs_done(at, dirs_tally(nodes));
    if nodes.len() == 0 {
        lemma_plus_zero(at.stats);
        assert(entries(nodes) =~= Seq::empty());
        lemma_classify_none();
        assert(end.stack =~= at.stack);
    } else {
        let rest = nodes.drop_first();
        lemma_classify_first(nodes);
        match nodes[0] {
            Node::Dir { path, .. } => {
                // the first subdirectory is gone through
                let (state, asked) = spec_proceed(at);
                let parent = FrameView { dirs: top.dirs.drop_first(), ..top };
                lemma_dir(state, nodes[0]);
                let next = frame_done(state, tally(nodes[0]));
                // then the others
                assert(parent.dirs =~= classify_dirs(entries(rest)));
                lemma_follow_concat(state, asked, dialogue(nodes[0]), dirs_dialogue(rest));
                lemma_dirs(next, rest);
                // and the counts add up
                let end_of_rest = dirs_done(next, dirs_tally(rest));
                lemma_plus_twice(at.stats, tally(nodes[0]), dirs_tally(rest));
                assert(end_of_rest.stack =~= end.stack);
            },
            _ => {
                lemma_dirs(at, rest);
            },
        }
    }
}

/// What the listing of a directory and the going through what it showed
/// add to the counters.
pub(crate) open spec fn inner_tally(node: Node) -> Tally {
    match node {
        Node::Dir { listing: Ok(children), .. } => tally_all(children),
        _ => Tally::failures(1),
    }
}

/// What the attempt to remove a directory adds to the counters.
pub(crate) open spec fn closing_tally(node: Node) -> Tally {
    if node.gone() {
        Tally::dirs(1)
    } else {
        Tally::failures(1)
    }
}

/// The dialogue over a directory from its listing to the last turn of what
/// the listing showed.
pub(crate) open spec fn opening(node: Node) -> Seq<Exchange> {
    seq![node.listing_exchange()] + match node {
        Node::Dir { listing: Ok(children), .. } => files_dialogue(children) + dirs_dialogue(
            children,
        ),
        _ => Seq::empty(),
    }
}

/// `s` when all that the listing of its topmost directory `node` showed has
/// been gone through: nothing waits in the frame any more.
pub(crate) open spec fn emptied(s: EngineView, node: Node) -> EngineView {
    frame_done(s, inner_tally(node)).pushed(FrameView::fresh(node.path()))
}

/// The state in which the listing of the topmost directory of `s`, which
/// showed `children`, has been taken in.
pub(crate) open spec fn listed(s: EngineView, children: Seq<Node>) -> EngineView {
    s.with_top(
        FrameView {
            dir: s.stack.last().dir,
            files: classify_files(entries(children)),
            dirs: classify_dirs(entries(children)),
        },
    ).with_stats(s.stats.plus(Tally::failures(metadata_failures(entries(children)).len())))
}

/// Going through the files and then the subdirectories of a listed
/// directory leaves its frame empty and has counted the tally of all its
/// children.
pub(crate) proof fn lemma_listing_worked_off(s: EngineView, node: Node)
    requires
        node matches Node::Dir { listing: Ok(_), .. },
        s.stack.len() > 0,
        s.stack.last() == FrameView::fresh(node.path()),
    ensures
        dirs_done(
            files_done(listed(s, node.children()), files_tally(node.children())),
            dirs_tally(node.children()),
        ) == emptied(s, node),
{
    let children = node.children();
    let failures = Tally::failures(metadata_failures(entries(children)).len());
    let cleared = dirs_done(
        files_done(listed(s, children), files_tally(children)),
        dirs_tally(children),
    );
    lemma_tally_by_kind(children);
    lemma_plus_twice(s.stats, failures, files_tally(children));
    lemma_plus_twice(s.stats, failures.plus(files_tally(children)), dirs_tally(children));
    assert(cleared.stack =~= emptied(s, node).stack);
}

/// From a directory that is about to be listed the engine takes the
/// listing in and goes through all that it showed.
pub(crate) proof fn lemma_opened(s: EngineView, node: Node)
    requires
        node is Dir,
        s.phase == Phase::Listing,
        s.stack.len() > 0,
        s.stack.last() == FrameView::fresh(node.path()),
    ensures
        follow(s, Action::ReadDir(node.path()), opening(node)) == Some(
            spec_proceed(emptied(s, node)),
        ),
    decreases node, 0nat,
{
    let heard = spec_step(s, node.listing_exchange().answer);
    assert(follow(s, Action::ReadDir(node.path()), opening(node)) == follow(
        heard.state,
        heard.action,
        opening(node).drop_first(),
    ));
    match node {
        Node::Dir { listing: Ok(children), .. } => {
            let files = files_dialogue(children);
            let dirs = dirs_dialogue(children);
            assert(opening(node).drop_first() =~= files + dirs);
            let begun = listed(s, children);
            lemma_files(begun, children);
            lemma_follow_concat(heard.state, heard.action, files, dirs);
            lemma_dirs(files_done(begun, files_tally(children)), children);
            lemma_listing_worked_off(s, node);
        },
        _ => {
            assert(emptied(s, node).stack =~= s.stack);
        },
    }
}

/// From a directory in whose frame nothing waits the engine asks for the
/// removal of the directory and counts its outcome.
pub(crate) proof fn lemma_closed(at: EngineView, node: Node)
    requires
        node is Dir,
        at.stack.len() > 0,
        at.stack.last() == FrameView::fresh(node.path()),
    ensures
        resume(at, seq![node.removal_exchange()]) == Some(
            spec_proceed(frame_done(at, closing_tally(node))),
        ),
{
    let last = seq![node.removal_exchange()];
    let (state, asked) = spec_proceed(at);
    let heard = spec_step(state, last[0].answer);
    assert(resume(at, last) == follow(heard.state, heard.action, last.drop_first()));
}

/// From a directory that is about to be listed the engine goes through the
/// dialogue over that directory, and is then where it would be with the
/// directory's frame gone and its tally counted.
pub(crate) proof fn lemma_dir(s: EngineView, node: Node)
    requires
        node is Dir,
        s.phase == Phase::Listing,
        s.stack.len() > 0,
        s.stack.last() == FrameView::fresh(node.path()),
    ensures
        follow(s, Action::ReadDir(node.path()), dialogue(node)) == Some(
            spec_proceed(frame_done(s, tally(node))),
        ),
    decreases node, 1nat,
{
    let last = seq![node.removal_exchange()];
    let middle = emptied(s, node);
    assert(dialogue(node) =~= opening(node) + last);
    lemma_opened(s, node);
    lemma_closed(middle, node);
    lemma_follow_concat(s, Action::ReadDir(node.path()), opening(node), last);
    lemma_plus_twice(s.stats, inner_tally(node), closing_tally(node));
    assert(middle.stack.drop_last() =~= s.stack.drop_last());
    assert(frame_done(middle, closing_tally(node)) == frame_done(s, tally(node)));
}

/// A run on a directory follows the script: from any engine that is not in
/// the middle of a run, and whatever the filesystem answers, the engine asks
/// for exactly the operations of the post-order dialogue over `root`, in
/// their order; it then declares the run finished without error, is in its
/// completed state with no directory under way, and has added to each
/// counter exactly what the script's tally says.
pub proof fn lemma_run_follows_script(engine: EngineView, root: Node)
    requires
        !engine.busy(),
        root is Dir,
    ensures
        ({
            let (begun, first) = spec_start(engine, root.path());
            follow(begun, first, run_dialogue(root)) == Some(
                (
                    EngineView {
                        phase: Phase::Completed,
                        stats: engine.stats.plus(tally(root)),
                        stack: Seq::empty(),
                        ..engine
                    },
                    Action::Finish(Ok(())),
                ),
            )
        }),
{
    let (begun, first) = spec_start(engine, root.path());
    let next = spec_step(begun, EventView::Metadata(root.meta()));
    assert(run_dialogue(root).drop_first() =~= dialogue(root));
    assert(next.state.stack.drop_last() =~= Seq::<FrameView>::empty());
    lemma_dir(next.state, root);
}

/// A run from a fresh engine counts exactly what the script's tally says,
/// as long as each count fits in a `u64`. In particular the bytes freed are
/// the lengths of the files whose removal succeeded, summed up over the
/// whole tree, however deep a file lies.
pub proof fn lemma_fresh_run_counts_tally(verbose: bool, root: Node)
    requires
        root is Dir,
        tally(root).files <= u64::MAX,
        tally(root).dirs <= u64::MAX,
        tally(root).errors <= u64::MAX,
        tally(root).bytes <= u64::MAX,
    ensures
        ({
            let (begun, first) = spec_start(EngineView::idle(verbose), root.path());
            let end = follow(begun, first, run_dialogue(root));
            let (state, asked) = end.unwrap();
            &&& end is Some
            &&& asked == Action::Finish(Ok(()))
            &&& state.stage() == Stage::Completed
            &&& state.stats.files_deleted == tally(root).files
            &&& state.stats.dirs_deleted == tally(root).dirs
            &&& state.stats.errors_encountered == tally(root).errors
            &&& state.stats.bytes_freed == tally(root).bytes
        }),
{
    lemma_run_follows_script(EngineView::idle(verbose), root);
}

} // verus!
