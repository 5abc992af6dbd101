//! Scripts of whole runs: for a directory tree, and for every answer that
//! the filesystem gives along the way, the dialogue that a post-order
//! traversal makes of it and what that dialogue should add to the counters.
//!
//! A script fixes the answers, not the engine's questions. That the engine
//! asks exactly the questions of the dialogue, in its order, is proved in
//! [`crate::laws`].
use crate::machine::{metadata_failures, spec_step, EngineView};
use crate::protocol::{Action, DirEntry, EntryMeta, EventView, Report};
use crate::stats::Tally;
use std::path::PathBuf;
use vstd::prelude::*;

verus! {

/// What a run meets at one path, with the answer of the filesystem to each
/// operation that may be tried on it.
pub enum Node {
    /// A child whose metadata cannot be read.
    Unreadable { path: PathBuf, cause: String },
    /// A file of `len` bytes, and how the attempt to remove it ends.
    File { path: PathBuf, len: u64, removal: Result<(), String> },
    /// A directory: how the attempt to list it ends (the children found, in
    /// listing order, or the failure), and how the attempt to remove it
    /// ends once its children have been dealt with.
    Dir { path: PathBuf, len: u64, listing: Result<Seq<Node>, String>, removal: Result<(), String> },
}

/// One turn of the dialogue: what the engine asks for and what it is told.
pub struct Exchange {
    pub request: Action,
    pub answer: EventView,
}

impl Node {
    /// The path of the node.
    pub open spec fn path(self) -> PathBuf {
        match self {
            Node::Unreadable { path, .. } => path,
            Node::File { path, .. } => path,
            Node::Dir { path, .. } => path,
        }
    }

    /// The outcome of the metadata query on the node.
    pub open spec fn meta(self) -> Result<EntryMeta, String> {
        match self {
            Node::Unreadable { cause, .. } => Err(cause),
            Node::File { len, .. } => Ok(EntryMeta { is_dir: false, len }),
            Node::Dir { len, .. } => Ok(EntryMeta { is_dir: true, len }),
        }
    }

    /// The node as its parent's listing shows it.
    pub open spec fn entry(self) -> DirEntry {
        DirEntry { path: self.path(), meta: self.meta() }
    }

    /// The children that the listing of a directory shows; none for any
    /// other node and for a directory whose listing fails.
    pub open spec fn children(self) -> Seq<Node> {
        match self {
            Node::Dir { listing: Ok(children), .. } => children,
            _ => Seq::empty(),
        }
    }

    /// Whether the node is gone from the filesystem after the run: a file
    /// or a directory whose removal succeeded.
    pub open spec fn gone(self) -> bool {
        match self {
            Node::Unreadable { .. } => false,
            Node::File { removal, .. } => removal is Ok,
            Node::Dir { removal, .. } => removal is Ok,
        }
    }

    /// The attempt to remove the node and its outcome.
    pub open spec fn removal_exchange(self) -> Exchange
        recommends
            !(self is Unreadable),
    {
        match self {
            Node::File { path, removal, .. } => Exchange {
                request: Action::RemoveFile(path),
                answer: EventView::Removed(removal),
            },
            Node::Dir { path, removal, .. } => Exchange {
                request: Action::RemoveDir(path),
                answer: EventView::Removed(removal),
            },
            Node::Unreadable { path, .. } => Exchange {
                request: Action::OutOfTurn,
                answer: EventView::Removed(Ok(())),
            },
        }
    }

    /// The attempt to list a directory and its outcome.
    pub open spec fn listing_exchange(self) -> Exchange
        recommends
            self is Dir,
    {
        Exchange {
            request: Action::ReadDir(self.path()),
            answer: EventView::Listing(
                match self {
                    Node::Dir { listing: Err(cause), .. } => Err(cause),
                    _ => Ok(entries(self.children())),
                },
            ),
        }
    }
}

/// The nodes as a listing shows them.
pub open spec fn entries(nodes: Seq<Node>) -> Seq<DirEntry> {
    nodes.map_values(|node: Node| node.entry())
}

/// The dialogue over one node, from the first operation on it to the
/// attempt to remove it, which comes last. A directory is listed, then its
/// files are removed in listing order, then each of its subdirectories is
/// gone through in full, and only then the directory itself is removed.
/// Nothing is tried on a child whose metadata cannot be read.
pub open spec fn dialogue(node: Node) -> Seq<Exchange>
    decreases node,
{
    match node {
        Node::Unreadable { .. } => Seq::empty(),
        Node::File { .. } => seq![node.removal_exchange()],
        Node::Dir { listing, .. } => {
            let inner = match listing {
                Ok(children) => files_dialogue(children) + dirs_dialogue(children),
                Err(_) => Seq::empty(),
            };
            seq![node.listing_exchange()] + inner + seq![node.removal_exchange()]
        },
    }
}

/// The removal of each file among `nodes`, in order.
pub open spec fn files_dialogue(nodes: Seq<Node>) -> Seq<Exchange>
    decreases nodes.len(),
{
    if nodes.len() == 0 {
        Seq::empty()
    } else if nodes[0] is File {
        seq![nodes[0].removal_exchange()] + files_dialogue(nodes.drop_first())
    } else {
        files_dialogue(nodes.drop_first())
    }
}

/// The dialogues over the directories among `nodes`, one after the other.
pub open spec fn dirs_dialogue(nodes: Seq<Node>) -> Seq<Exchange>
    decreases nodes,
{
    if nodes.len() == 0 {
        Seq::empty()
    } else if nodes[0] is Dir {
        dialogue(nodes[0]) + dirs_dialogue(nodes.drop_first())
    } else {
        dirs_dialogue(nodes.drop_first())
    }
}

/// The dialogue of a whole run on `root`: the metadata query that finds the
/// root to be a directory, then the dialogue over the root.
pub open spec fn run_dialogue(root: Node) -> Seq<Exchange>
    recommends
        root is Dir,
{
    seq![
        Exchange {
            request: Action::Stat(root.path()),
            answer: EventView::Metadata(root.meta()),
        },
    ] + dialogue(root)
}

/// What the run adds to the counters at one node and below it: a removed
/// file counts as one file and its length as bytes freed, a removed
/// directory as one directory, and each listing, metadata query or removal
/// that fails as one failure.
pub open spec fn tally(node: Node) -> Tally
    decreases node,
{
    match node {
        Node::Unreadable { .. } => Tally::failures(1),
        Node::File { len, removal, .. } => if removal is Ok {
            Tally::file(len as nat)
        } else {
            Tally::failures(1)
        },
        Node::Dir { listing, removal, .. } => {
            let inner = match listing {
                Ok(children) => tally_all(children),
                Err(_) => Tally::failures(1),
            };
            inner.plus(
                if removal is Ok {
                    Tally::dirs(1)
                } else {
                    Tally::failures(1)
                },
            )
        },
    }
}

/// The sum of the tallies of `nodes`.
pub open spec fn tally_all(nodes: Seq<Node>) -> Tally
    decreases nodes,
{
    if nodes.len() == 0 {
        Tally::zero()
    } else {
        tally(nodes[0]).plus(tally_all(nodes.drop_first()))
    }
}

/// The reports that a verbose engine hands out while it follows
/// `dialogue` from state `s`, in which `pending` is the request that is
/// outstanding: those of each step, one after the other.
pub open spec fn told(s: EngineView, pending: Action, dialogue: Seq<Exchange>) -> Seq<Report>
    decreases dialogue.len(),
{
    if dialogue.len() == 0 || dialogue[0].request != pending {
        Seq::empty()
    } else {
        let next = spec_step(s, dialogue[0].answer);
        next.reports + told(next.state, next.action, dialogue.drop_first())
    }
}

/// The report of what became of one node: of a file or a directory, how
/// the attempt to remove it ended; of a child whose metadata could not be
/// read, that failure.
pub open spec fn outcome_report(node: Node) -> Report {
    match node {
        Node::File { path, removal: Ok(_), .. } => Report::FileDeleted { path },
        Node::File { path, removal: Err(cause), .. } => Report::FileFailed { path, cause },
        Node::Dir { path, removal: Ok(_), .. } => Report::DirDeleted { path },
        Node::Dir { path, removal: Err(cause), .. } => Report::DirFailed { path, cause },
        Node::Unreadable { path, cause } => Report::MetadataFailed { path, cause },
    }
}

/// What there is to report of one node and of all below it, in the order
/// of the dialogue: of a directory first the failure of its listing, or the
/// children whose metadata could not be read; then what there is to
/// report of its files and of its subdirectories; and last the outcome of
/// its own removal.
pub open spec fn reports_of(node: Node) -> Seq<Report>
    decreases node,
{
    match node {
        Node::Unreadable { .. } => Seq::empty(),
        Node::File { .. } => seq![outcome_report(node)],
        Node::Dir { path, listing, .. } => {
            let inner = match listing {
                Ok(children) => metadata_failures(entries(children)) + files_reports(children)
                    + dirs_reports(children),
                Err(cause) => seq![Report::ListFailed { path, cause }],
            };
            inner + seq![outcome_report(node)]
        },
    }
}

/// The reports of the removal of each file among `nodes`, in order.
pub open spec fn files_reports(nodes: Seq<Node>) -> Seq<Report>
    decreases nodes.len(),
{
    if nodes.len() == 0 {
        Seq::empty()
    } else if nodes[0] is File {
        seq![outcome_report(nodes[0])] + files_reports(nodes.drop_first())
    } else {
        files_reports(nodes.drop_first())
    }
}

/// The reports of the directories among `nodes`, one directory after the
/// other.
pub open spec fn dirs_reports(nodes: Seq<Node>) -> Seq<Report>
    decreases nodes,
{
    if nodes.len() == 0 {
        Seq::empty()
    } else if nodes[0] is Dir {
        reports_of(nodes[0]) + dirs_reports(nodes.drop_first())
    } else {
        dirs_reports(nodes.drop_first())
    }
}

/// What there is to report of a whole run on `root`: that it has started,
/// and all that there is to report of the root.
pub open spec fn run_reports(root: Node) -> Seq<Report>
    recommends
        root is Dir,
{
    seq![Report::Started { path: root.path() }] + reports_of(root)
}

/// The files at `node` and below it, at whatever depth they lie.
pub open spec fn files_below(node: Node) -> Seq<Node>
    decreases node,
{
    match node {
        Node::File { .. } => seq![node],
        Node::Dir { listing: Ok(children), .. } => files_among(children),
        _ => Seq::empty(),
    }
}

/// The files at and below each of `nodes`.
pub open spec fn files_among(nodes: Seq<Node>) -> Seq<Node>
    decreases nodes,
{
    if nodes.len() == 0 {
        Seq::empty()
    } else {
        files_below(nodes[0]) + files_among(nodes.drop_first())
    }
}

/// The lengths of those of `files` that are gone, summed up.
pub open spec fn freed(files: Seq<Node>) -> nat
    decreases files.len(),
{
    if files.len() == 0 {
        0
    } else {
        freed(files.drop_last()) + match files.last() {
            Node::File { len, removal: Ok(_), .. } => len as nat,
            _ => 0,
        }
    }
}

/// What the engine asks for in the course of `dialogue`, turn by turn.
pub open spec fn requests(dialogue: Seq<Exchange>) -> Seq<Action> {
    dialogue.map_values(|turn: Exchange| turn.request)
}

/// Whether two scripts are of the same tree: the same paths, each of the
/// same kind in both, and each directory listed in both with the same
/// children in the same order, or in neither. The two may differ in
/// whether any removal succeeds, in the lengths of the files and in the
/// causes of the failures.
pub open spec fn same_tree(a: Node, b: Node) -> bool
    decreases a,
{
    match a {
        Node::Unreadable { path, .. } => b is Unreadable && b.path() == path,
        Node::File { path, .. } => b is File && b.path() == path,
        Node::Dir { path, listing, .. } => {
            &&& b is Dir
            &&& b.path() == path
            &&& match listing {
                Err(_) => b matches Node::Dir { listing: Err(_), .. },
                Ok(children) => {
                    &&& b matches Node::Dir { listing: Ok(_), .. }
                    &&& b.children().len() == children.len()
                    &&& forall|i: int|
                        0 <= i < children.len() ==> same_tree(
                            #[trigger] children[i],
                            b.children()[i],
                        )
                },
            }
        },
    }
}

/// Whether `trail` is a way down from `node`: each of its numbers is the
/// index of a child of the node that the numbers before it lead to.
pub open spec fn leads(node: Node, trail: Seq<int>) -> bool
    decreases trail.len(),
{
    trail.len() == 0 || (0 <= trail[0] < node.children().len() && leads(
        node.children()[trail[0]],
        trail.drop_first(),
    ))
}

/// The node that `trail` leads to from `node`.
pub open spec fn descend(node: Node, trail: Seq<int>) -> Node
    recommends
        leads(node, trail),
    decreases trail.len(),
{
    if trail.len() == 0 {
        node
    } else {
        descend(node.children()[trail[0]], trail.drop_first())
    }
}

/// Whether the filesystem answers at `node` and below it as one does that
/// nobody else is changing and that denies the run nothing: every listing
/// and every metadata query succeeds, every file can be removed, and a
/// directory can be removed exactly when all its children are gone.
pub open spec fn orderly(node: Node) -> bool
    decreases node,
{
    match node {
        Node::Unreadable { .. } => false,
        Node::File { removal, .. } => removal is Ok,
        Node::Dir { listing, removal, .. } => match listing {
            Err(_) => false,
            Ok(children) => {
                &&& forall|i: int| 0 <= i < children.len() ==> orderly(#[trigger] children[i])
                &&& removal is Ok <==> forall|i: int|
                    0 <= i < children.len() ==> (#[trigger] children[i]).gone()
            },
        },
    }
}

/// Runs the engine from state `s`, in which `pending` is the request that
/// is outstanding, through `dialogue`: each answer is given to the engine
/// in turn. The result is the state at the end with the request that is
/// then outstanding; or nothing, if at some turn the engine asks for
/// something else than the dialogue has next.
pub open spec fn follow(s: EngineView, pending: Action, dialogue: Seq<Exchange>) -> Option<
    (EngineView, Action),
>
    decreases dialogue.len(),
{
    if dialogue.len() == 0 {
        Some((s, pending))
    } else if dialogue[0].request != pending {
        None
    } else {
        let next = spec_step(s, dialogue[0].answer);
        follow(next.state, next.action, dialogue.drop_first())
    }
}

} // verus!
