//! How runs end: without a failure on an orderly filesystem, with every
//! failure contained otherwise, and in error only where the root itself is
//! rejected.
use crate::laws::conformance::lemma_run_follows_script;
use crate::machine::{spec_start, spec_step, EngineView, FrameView, Phase, Stage};
use crate::protocol::{Action, DeletionError, EntryMeta, EventView};
use crate::script::{
    descend, dialogue, dirs_dialogue, files_among, files_below, files_dialogue, follow, freed,
    leads, orderly, requests, run_dialogue, same_tree, tally, tally_all, Exchange, Node,
};
use crate::stats::DeletionStats;
use std::path::PathBuf;
use vstd::prelude::*;

verus! {

/// Where the filesystem is orderly, nothing fails at `node` or below it and
/// the node is gone in the end.
pub proof fn lemma_orderly_leaves_nothing(node: Node)
    requires
        orderly(node),
    ensures
        node.gone(),
        tally(node).errors == 0,
    decreases node,
{
    match node {
        Node::Dir { listing: Ok(children), .. } => {
            lemma_orderly_children(children);
        },
        _ => {},
    }
}

/// [`lemma_orderly_leaves_nothing`] for all the children of a directory.
proof fn lemma_orderly_children(nodes: Seq<Node>)
    requires
        forall|i: int| 0 <= i < nodes.len() ==> orderly(#[trigger] nodes[i]),
    ensures
        forall|i: int| 0 <= i < nodes.len() ==> (#[trigger] nodes[i]).gone(),
        tally_all(nodes).errors == 0,
    decreases nodes,
{
    if nodes.len() > 0 {
        let rest = nodes.drop_first();
        lemma_orderly_leaves_nothing(nodes[0]);
        assert forall|i: int| 0 <= i < rest.len() implies orderly(#[trigger] rest[i]) by {
            assert(rest[i] == nodes[i + 1]);
        }
        lemma_orderly_children(rest);
        assert forall|i: int| 0 <= i < nodes.len() implies (#[trigger] nodes[i]).gone() by {
            if i > 0 {
                assert(nodes[i] == rest[i - 1]);
            }
        }
    }
}

/// Where the filesystem is orderly, every file and every directory of the
/// tree is gone in the end, at whatever depth it lies.
pub proof fn lemma_orderly_tree_is_gone(root: Node, trail: Seq<int>)
    requires
        orderly(root),
        leads(root, trail),
    ensures
        orderly(descend(root, trail)),
        descend(root, trail).gone(),
    decreases trail.len(),
{
    if trail.len() == 0 {
        lemma_orderly_leaves_nothing(root);
    } else {
        let child = root.children()[trail[0]];
        assert(orderly(child));
        lemma_orderly_tree_is_gone(child, trail.drop_first());
    }
}

/// Completeness: on an orderly filesystem a run from a fresh engine ends
/// without error, with no failure counted, and the last thing it did was to
/// remove the root, with success.
pub proof fn lemma_orderly_run_is_complete(verbose: bool, root: Node)
    requires
        root is Dir,
        orderly(root),
    ensures
        ({
            let (begun, first) = spec_start(EngineView::idle(verbose), root.path());
            let end = follow(begun, first, run_dialogue(root));
            let (state, asked) = end.unwrap();
            &&& end is Some
            &&& asked == Action::Finish(Ok(()))
            &&& state.stage() == Stage::Completed
            &&& state.stats.errors_encountered == 0
            &&& run_dialogue(root).last() == Exchange {
                request: Action::RemoveDir(root.path()),
                answer: EventView::Removed(Ok(())),
            }
        }),
{
    lemma_run_follows_script(EngineView::idle(verbose), root);
    lemma_orderly_leaves_nothing(root);
    assert(run_dialogue(root).last() == root.removal_exchange()) by {
        assert(dialogue(root).last() == seq![root.removal_exchange()][0]);
    }
    assert(root.removal_exchange().answer == EventView::Removed(Ok(()))) by {
        assert(root matches Node::Dir { removal, .. } && removal->Ok_0 == ());
    }
}

/// The tally of files alone: each counts as one file removed or as one
/// failure, and none as a directory.
proof fn lemma_files_only(nodes: Seq<Node>)
    requires
        forall|i: int| 0 <= i < nodes.len() ==> #[trigger] nodes[i] is File,
    ensures
        tally_all(nodes).files + tally_all(nodes).errors == nodes.len(),
        tally_all(nodes).dirs == 0,
        (forall|i: int| 0 <= i < nodes.len() ==> (#[trigger] nodes[i]).gone()) ==> tally_all(
            nodes,
        ).errors == 0,
    decreases nodes.len(),
{
    if nodes.len() > 0 {
        let rest = nodes.drop_first();
        assert forall|i: int| 0 <= i < rest.len() implies #[trigger] rest[i] is File by {
            assert(rest[i] == nodes[i + 1]);
        }
        lemma_files_only(rest);
        assert(nodes[0] is File);
        assert(tally(nodes[0]).dirs == 0);
        if forall|i: int| 0 <= i < nodes.len() ==> (#[trigger] nodes[i]).gone() {
            assert(nodes[0].gone());
            assert forall|i: int| 0 <= i < rest.len() implies (#[trigger] rest[i]).gone() by {
                assert(rest[i] == nodes[i + 1]);
            }
        }
    }
}

/// One failure among files: it is the only one counted.
proof fn lemma_single_failure(nodes: Seq<Node>, k: int)
    requires
        0 <= k < nodes.len(),
        forall|i: int| 0 <= i < nodes.len() ==> #[trigger] nodes[i] is File,
        forall|i: int| 0 <= i < nodes.len() ==> ((#[trigger] nodes[i]).gone() <==> i != k),
    ensures
        tally_all(nodes).files == nodes.len() - 1,
        tally_all(nodes).errors == 1,
        tally_all(nodes).dirs == 0,
    decreases nodes.len(),
{
    let rest = nodes.drop_first();
    assert forall|i: int| 0 <= i < rest.len() implies #[trigger] rest[i] is File by {
        assert(rest[i] == nodes[i + 1]);
    }
    assert(nodes[0] is File);
    assert(tally(nodes[0]).dirs == 0);
    if k == 0 {
        assert(!nodes[0].gone());
        assert forall|i: int| 0 <= i < rest.len() implies (#[trigger] rest[i]).gone() by {
            assert(rest[i] == nodes[i + 1]);
        }
        lemma_files_only(rest);
    } else {
        assert(nodes[0].gone());
        assert forall|i: int| 0 <= i < rest.len() implies ((#[trigger] rest[i]).gone() <==> i != k
            - 1) by {
            assert(rest[i] == nodes[i + 1]);
        }
        lemma_single_failure(rest, k - 1);
    }
}

/// Error containment: where a directory holds `n` files and the removal of
/// exactly one of them fails, the run still comes to its end without
/// error, `n - 1` files are counted as removed, and the failure is
/// counted. (A second failure is counted if the directory, which is then
/// not empty, cannot be removed either.)
pub proof fn lemma_one_failure_among_siblings(engine: EngineView, root: Node, k: int)
    requires
        !engine.busy(),
        root is Dir,
        root matches Node::Dir { listing, .. } && listing is Ok,
        0 <= k < root.children().len(),
        forall|i: int| 0 <= i < root.children().len() ==> #[trigger] root.children()[i] is File,
        forall|i: int|
            0 <= i < root.children().len() ==> ((#[trigger] root.children()[i]).gone() <==> i
                != k),
    ensures
        ({
            let (begun, first) = spec_start(engine, root.path());
            let end = follow(begun, first, run_dialogue(root));
            let (state, asked) = end.unwrap();
            &&& end is Some
            &&& asked == Action::Finish(Ok(()))
            &&& state.stage() == Stage::Completed
            &&& state.stats == engine.stats.plus(tally(root))
        }),
        tally(root).files == root.children().len() - 1,
        tally(root).errors == if root.gone() {
            1nat
        } else {
            2nat
        },
{
    lemma_run_follows_script(engine, root);
    lemma_single_failure(root.children(), k);
}

/// The bytes freed of files in two parts are those of the parts together,
/// and so is the number of files gone.
proof fn lemma_freed_concat(a: Seq<Node>, b: Seq<Node>)
    ensures
        freed(a + b) == freed(a) + freed(b),
        (a + b).filter(|file: Node| file.gone()).len() == a.filter(|file: Node| file.gone()).len()
            + b.filter(|file: Node| file.gone()).len(),
    decreases b.len(),
{
    Seq::filter_distributes_over_add(a, b, |file: Node| file.gone());
    if b.len() == 0 {
        assert(a + b =~= a);
    } else {
        assert((a + b).drop_last() =~= a + b.drop_last());
        lemma_freed_concat(a, b.drop_last());
    }
}

/// Byte accounting: the bytes that a run counts as freed are the lengths of
/// the files whose removal succeeded, summed up over the whole tree
/// whatever the depth at which a file lies, and the files that it counts as
/// removed are as many as those files.
pub proof fn lemma_bytes_are_those_of_removed_files(node: Node)
    ensures
        tally(node).bytes == freed(files_below(node)),
        tally(node).files == files_below(node).filter(|file: Node| file.gone()).len(),
    decreases node,
{
    reveal_with_fuel(Seq::filter, 2);
    match node {
        Node::File { .. } => {
            assert(seq![node].drop_last() =~= Seq::<Node>::empty());
            assert(freed(seq![node].drop_last()) == 0);
        },
        Node::Dir { listing: Ok(children), .. } => {
            lemma_bytes_among(children);
        },
        _ => {},
    }
}

/// [`lemma_bytes_are_those_of_removed_files`] for the children of a
/// directory.
proof fn lemma_bytes_among(nodes: Seq<Node>)
    ensures
        tally_all(nodes).bytes == freed(files_among(nodes)),
        tally_all(nodes).files == files_among(nodes).filter(|file: Node| file.gone()).len(),
    decreases nodes,
{
    reveal_with_fuel(Seq::filter, 1);
    if nodes.len() > 0 {
        lemma_bytes_are_those_of_removed_files(nodes[0]);
        lemma_bytes_among(nodes.drop_first());
        lemma_freed_concat(files_below(nodes[0]), files_among(nodes.drop_first()));
    }
}

/// [`lemma_failures_change_no_request`] for the files and for the
/// subdirectories of a directory.
proof fn lemma_same_children(a: Seq<Node>, b: Seq<Node>)
    requires
        a.len() == b.len(),
        forall|i: int| 0 <= i < a.len() ==> same_tree(#[trigger] a[i], b[i]),
    ensures
        requests(files_dialogue(a)) == requests(files_dialogue(b)),
        requests(dirs_dialogue(a)) == requests(dirs_dialogue(b)),
    decreases a,
{
    if a.len() > 0 {
        let rest_a = a.drop_first();
        let rest_b = b.drop_first();
        assert(same_tree(a[0], b[0]));
        assert forall|i: int| 0 <= i < rest_a.len() implies same_tree(
            #[trigger] rest_a[i],
            rest_b[i],
        ) by {
            assert(same_tree(a[i + 1], b[i + 1]));
        }
        lemma_same_children(rest_a, rest_b);
        match a[0] {
            Node::File { .. } => {
                let one_a = seq![a[0].removal_exchange()];
                let one_b = seq![b[0].removal_exchange()];
                assert(requests(one_a) =~= requests(one_b));
                assert(requests(one_a + files_dialogue(rest_a)) =~= requests(one_a) + requests(
                    files_dialogue(rest_a),
                ));
                assert(requests(one_b + files_dialogue(rest_b)) =~= requests(one_b) + requests(
                    files_dialogue(rest_b),
                ));
            },
            Node::Dir { .. } => {
                lemma_failures_change_no_request(a[0], b[0]);
                assert(requests(dialogue(a[0]) + dirs_dialogue(rest_a)) =~= requests(
                    dialogue(a[0]),
                ) + requests(dirs_dialogue(rest_a)));
                assert(requests(dialogue(b[0]) + dirs_dialogue(rest_b)) =~= requests(
                    dialogue(b[0]),
                ) + requests(dirs_dialogue(rest_b)));
            },
            Node::Unreadable { .. } => {},
        }
    } else {
        assert(requests(files_dialogue(a)) =~= requests(files_dialogue(b)));
        assert(requests(dirs_dialogue(a)) =~= requests(dirs_dialogue(b)));
    }
}

/// No failure of a removal changes what is tried: over the same tree the
/// engine asks for the same operations in the same order, however any
/// removal ends. A file that stays does not keep its siblings from their
/// turn, and a subdirectory that stays does not keep its parent from being
/// tried.
pub proof fn lemma_failures_change_no_request(a: Node, b: Node)
    requires
        same_tree(a, b),
    ensures
        requests(dialogue(a)) == requests(dialogue(b)),
    decreases a,
{
    match a {
        Node::Dir { listing, .. } => {
            let first_a = seq![a.listing_exchange()];
            let first_b = seq![b.listing_exchange()];
            let last_a = seq![a.removal_exchange()];
            let last_b = seq![b.removal_exchange()];
            assert(requests(first_a) =~= requests(first_b));
            assert(requests(last_a) =~= requests(last_b));
            match listing {
                Ok(children) => {
                    let others = b.children();
                    lemma_same_children(children, others);
                    let inner_a = files_dialogue(children) + dirs_dialogue(children);
                    let inner_b = files_dialogue(others) + dirs_dialogue(others);
                    assert(requests(inner_a) =~= requests(files_dialogue(children)) + requests(
                        dirs_dialogue(children),
                    ));
                    assert(requests(inner_b) =~= requests(files_dialogue(others)) + requests(
                        dirs_dialogue(others),
                    ));
                    assert(requests(first_a + inner_a + last_a) =~= requests(first_a) + requests(
                        inner_a,
                    ) + requests(last_a));
                    assert(requests(first_b + inner_b + last_b) =~= requests(first_b) + requests(
                        inner_b,
                    ) + requests(last_b));
                },
                Err(_) => {
                    let none = Seq::<Exchange>::empty();
                    assert(requests(first_a + none + last_a) =~= requests(first_a) + requests(
                        last_a,
                    ));
                    assert(requests(first_b + none + last_b) =~= requests(first_b) + requests(
                        last_b,
                    ));
                },
            }
        },
        Node::File { .. } => {
            assert(requests(seq![a.removal_exchange()]) =~= requests(seq![b.removal_exchange()]));
        },
        Node::Unreadable { .. } => {
            assert(requests(dialogue(a)) =~= requests(dialogue(b)));
        },
    }
}

/// Only the validation of the root can fail a run: the engine declares a
/// run failed only in answer to the metadata query on the root, and then
/// the counters are as they were. Every other failure is counted and the
/// run goes on.
pub proof fn lemma_only_validation_fails(s: EngineView, event: EventView)
    requires
        spec_step(s, event).action matches Action::Finish(Err(_)),
    ensures
        s.phase == Phase::Validating,
        event is Metadata,
        !(event->Metadata_0 matches Ok(meta) && meta.is_dir),
        spec_step(s, event).state.stats == s.stats,
        spec_step(s, event).state.stage() == Stage::Failed,
{
}

/// A root that is no directory is rejected: the run on it ends with
/// [`DeletionError::InvalidTarget`] as soon as its metadata is known, and
/// an engine that was fresh still has all its counters at zero.
pub proof fn lemma_regular_file_is_rejected(verbose: bool, root: PathBuf, meta: EntryMeta)
    requires
        !meta.is_dir,
    ensures
        ({
            let (begun, first) = spec_start(EngineView::idle(verbose), root);
            let end = spec_step(begun, EventView::Metadata(Ok(meta)));
            &&& first == Action::Stat(root)
            &&& end.action == Action::Finish(Err(DeletionError::InvalidTarget { path: root }))
            &&& end.state.stats == DeletionStats::zero()
            &&& end.state.stage() == Stage::Failed
            &&& end.reports.len() == 0
        }),
{
    let (begun, first) = spec_start(EngineView::idle(verbose), root);
    assert(begun.stack.last() == FrameView::fresh(root));
}

/// A root whose metadata cannot be read is rejected: the run on it ends
/// with [`DeletionError::Access`], which carries the path and the cause,
/// and an engine that was fresh still has all its counters at zero.
pub proof fn lemma_unreadable_root_is_rejected(verbose: bool, root: PathBuf, cause: String)
    ensures
        ({
            let (begun, first) = spec_start(EngineView::idle(verbose), root);
            let end = spec_step(begun, EventView::Metadata(Err(cause)));
            &&& first == Action::Stat(root)
            &&& end.action == Action::Finish(Err(DeletionError::Access { path: root, cause }))
            &&& end.state.stats == DeletionStats::zero()
            &&& end.state.stage() == Stage::Failed
            &&& end.reports.len() == 0
        }),
{
    let (begun, first) = spec_start(EngineView::idle(verbose), root);
    assert(begun.stack.last() == FrameView::fresh(root));
}

} // verus!
