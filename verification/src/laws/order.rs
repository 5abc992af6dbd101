//! Children before parents: where in the dialogue the turn of each child
//! and of each subdirectory comes.
use crate::laws::conformance::lemma_classify_first;
use crate::machine::metadata_failures;
use crate::script::{
    descend, dialogue, dirs_dialogue, entries, files_dialogue, leads, outcome_report, Node,
};
use vstd::prelude::*;

verus! {

/// Where among the removals of the files of `nodes` that of the file
/// `nodes[i]` stands.
proof fn lemma_file_turn(nodes: Seq<Node>, i: int) -> (j: int)
    requires
        0 <= i < nodes.len(),
        nodes[i] is File,
    ensures
        0 <= j < files_dialogue(nodes).len(),
        files_dialogue(nodes)[j] == nodes[i].removal_exchange(),
    decreases nodes.len(),
{
    if i == 0 {
        0
    } else {
        let rest = nodes.drop_first();
        assert(rest[i - 1] == nodes[i]);
        let j = lemma_file_turn(rest, i - 1);
        if nodes[0] is File {
            j + 1
        } else {
            j
        }
    }
}

/// Where among the dialogues over the directories of `nodes` that over the
/// directory `nodes[i]` stands, in one piece.
proof fn lemma_dir_turns(nodes: Seq<Node>, i: int) -> (k: int)
    requires
        0 <= i < nodes.len(),
        nodes[i] is Dir,
    ensures
        0 <= k,
        k + dialogue(nodes[i]).len() <= dirs_dialogue(nodes).len(),
        dirs_dialogue(nodes).subrange(k, k + dialogue(nodes[i]).len()) == dialogue(nodes[i]),
    decreases nodes.len(),
{
    let rest = nodes.drop_first();
    let own = dialogue(nodes[i]);
    if i == 0 {
        assert(dirs_dialogue(nodes).subrange(0, own.len() as int) =~= own);
        0
    } else {
        assert(rest[i - 1] == nodes[i]);
        let k = lemma_dir_turns(rest, i - 1);
        if nodes[0] is Dir {
            let before = dialogue(nodes[0]);
            assert(dirs_dialogue(nodes).subrange(
                before.len() + k,
                before.len() + k + own.len(),
            ) =~= dirs_dialogue(rest).subrange(k, k + own.len()));
            before.len() + k
        } else {
            k
        }
    }
}

/// Where among the failures that a listing of `nodes` counts that of the
/// unreadable child `nodes[i]` stands.
proof fn lemma_failure_turn(nodes: Seq<Node>, i: int) -> (j: int)
    requires
        0 <= i < nodes.len(),
        nodes[i] is Unreadable,
    ensures
        0 <= j < metadata_failures(entries(nodes)).len(),
        metadata_failures(entries(nodes))[j] == outcome_report(nodes[i]),
    decreases nodes.len(),
{
    let rest = nodes.drop_first();
    lemma_classify_first(nodes);
    if i == 0 {
        0
    } else {
        assert(rest[i - 1] == nodes[i]);
        let j = lemma_failure_turn(rest, i - 1);
        if nodes[0] is Unreadable {
            j + 1
        } else {
            j
        }
    }
}

/// Children before parents: in the dialogue over a directory the listing
/// comes first and the attempt to remove the directory last, and each child
/// that the listing showed is dealt with in between. A child whose
/// metadata could not be read is among the failures that are counted when
/// the listing is taken in; for any other child the attempt to remove it
/// has been made, and its outcome counted, before the directory's own turn
/// comes.
pub proof fn lemma_children_before_parent(parent: Node, i: int)
    requires
        parent is Dir,
        0 <= i < parent.children().len(),
    ensures
        ({
            let whole = dialogue(parent);
            let child = parent.children()[i];
            let failures = metadata_failures(entries(parent.children()));
            &&& whole.len() >= 2
            &&& whole.first() == parent.listing_exchange()
            &&& whole.last() == parent.removal_exchange()
            &&& child is Unreadable ==> exists|j: int|
                0 <= j < failures.len() && failures[j] == outcome_report(child)
            &&& !(child is Unreadable) ==> exists|j: int|
                0 < j < whole.len() - 1 && whole[j] == child.removal_exchange()
        }),
{
    let whole = dialogue(parent);
    let children = parent.children();
    let child = children[i];
    let files = files_dialogue(children);
    let dirs = dirs_dialogue(children);
    assert(whole =~= seq![parent.listing_exchange()] + (files + dirs) + seq![
        parent.removal_exchange(),
    ]);
    match child {
        Node::Unreadable { .. } => {
            let j = lemma_failure_turn(children, i);
        },
        Node::File { .. } => {
            let j = lemma_file_turn(children, i);
            assert(whole[1 + j] == child.removal_exchange());
        },
        Node::Dir { .. } => {
            let k = lemma_dir_turns(children, i);
            let own = dialogue(child);
            let at = 1 + files.len() + k + own.len() - 1;
            assert(own.last() == child.removal_exchange());
            assert(dirs.subrange(k, k + own.len())[own.len() - 1] == dirs[k + own.len() - 1]);
            assert(whole[at] == child.removal_exchange());
        },
    }
}

/// A subdirectory is gone through in one piece: the dialogue over a
/// directory holds the dialogue over each of its subdirectories whole,
/// after the listing and before the attempt to remove the directory.
pub proof fn lemma_subdirectory_in_one_piece(parent: Node, i: int)
    requires
        parent is Dir,
        0 <= i < parent.children().len(),
        parent.children()[i] is Dir,
    ensures
        ({
            let whole = dialogue(parent);
            let own = dialogue(parent.children()[i]);
            exists|k: int|
                0 < k && k + own.len() < whole.len() && #[trigger] whole.subrange(
                    k,
                    k + own.len(),
                ) == own
        }),
{
    let whole = dialogue(parent);
    let children = parent.children();
    let own = dialogue(children[i]);
    let files = files_dialogue(children);
    let dirs = dirs_dialogue(children);
    assert(whole =~= seq![parent.listing_exchange()] + (files + dirs) + seq![
        parent.removal_exchange(),
    ]);
    let k = lemma_dir_turns(children, i);
    let at = 1 + files.len() + k;
    assert(whole.subrange(at, at + own.len()) =~= dirs.subrange(k, k + own.len()));
}

/// Post-order at every depth: the dialogue of a run holds, in one piece, the
/// dialogue over every directory that lies anywhere below the root. So
/// what [`lemma_children_before_parent`] says of a directory and its
/// children holds within the run for each directory of the tree.
pub proof fn lemma_descendant_in_one_piece(root: Node, trail: Seq<int>)
    requires
        root is Dir,
        leads(root, trail),
        descend(root, trail) is Dir,
    ensures
        ({
            let whole = dialogue(root);
            let own = dialogue(descend(root, trail));
            exists|k: int|
                0 <= k && k + own.len() <= whole.len() && #[trigger] whole.subrange(
                    k,
                    k + own.len(),
                ) == own
        }),
    decreases trail.len(),
{
    let whole = dialogue(root);
    if trail.len() == 0 {
        assert(whole.subrange(0int, 0int + whole.len()) =~= whole);
    } else {
        let child = root.children()[trail[0]];
        let rest = trail.drop_first();
        let own = dialogue(descend(root, trail));
        assert(leads(child, rest));
        assert(descend(root, trail) == descend(child, rest));
        if child is Dir {
            lemma_descendant_in_one_piece(child, rest);
            lemma_subdirectory_in_one_piece(root, trail[0]);
            let mid = dialogue(child);
            let k1 = choose|k: int|
                0 < k && k + mid.len() < whole.len() && #[trigger] whole.subrange(
                    k,
                    k + mid.len(),
                ) == mid;
            let k2 = choose|k: int|
                0 <= k && k + own.len() <= mid.len() && #[trigger] mid.subrange(k, k + own.len())
                    == own;
            assert(whole.subrange(k1 + k2, k1 + k2 + own.len()) =~= whole.subrange(
                k1,
                k1 + mid.len(),
            ).subrange(k2, k2 + own.len()));
            assert(whole.subrange(k1 + k2, k1 + k2 + own.len()) == own);
        } else {
            assert(child.children().len() == 0);
            assert(rest.len() == 0);
        }
    }
}

} // verus!
