//! A model of the world around a transaction: the files of the destination,
//! the package installer and the patch engine. It says what each action does
//! to the files and which event answers it, and so what a whole transaction
//! leaves behind.

use crate::transaction::{ActionView, EventView, ListingView, PatchStep, Stage, TransactionView};
use vstd::prelude::*;

verus! {

/// The files that exist, by path, each with its content.
pub type FileTree = Map<Seq<char>, Seq<char>>;

/// What a transaction works with, besides the files.
pub struct Surroundings {
    /// What the package installer makes of the files; an error if the
    /// transport refuses, in which case the files stay as they are.
    pub installer: spec_fn(FileTree) -> Result<FileTree, curl::Error>,
    /// The patch engine: from the content of a file and of its patch, each
    /// absent if the file is missing, to the patched content, or to the
    /// message with which the engine rejects them.
    pub engine: spec_fn(Option<Seq<char>>, Option<Seq<char>>) -> Result<Seq<char>, Seq<char>>,
    /// The paths at which a file, if there is one, cannot be read as text.
    pub unreadable: Set<Seq<char>>,
}

/// The message with which the system refuses to remove or move a file that
/// does not exist.
pub open spec fn not_found() -> Seq<char> {
    "No such file or directory"@
}

/// The message with which the system refuses to read a file as text.
pub open spec fn not_text() -> Seq<char> {
    "stream did not contain valid UTF-8"@
}

/// What reading the file at `path` gives.
pub open spec fn read(tree: FileTree, path: Seq<char>, around: Surroundings) -> ListingView {
    if !tree.contains_key(path) {
        ListingView::Absent
    } else if around.unreadable.contains(path) {
        ListingView::Unreadable(not_text())
    } else {
        ListingView::Text(tree[path])
    }
}

/// What `action` makes of the files, and the event that reports it. The two
/// actions that end a transaction change nothing and need no answer.
pub open spec fn respond(tree: FileTree, action: ActionView, around: Surroundings) -> (
    FileTree,
    EventView,
) {
    match action {
        ActionView::Unpack { .. } => match (around.installer)(tree) {
            Ok(unpacked) => (unpacked, EventView::Unpacked(Ok(()))),
            Err(error) => (tree, EventView::Unpacked(Err(error))),
        },
        ActionView::ReadList { path } => (tree, EventView::ListRead(read(tree, path, around))),
        ActionView::Patch { file, patch, output } => match (around.engine)(
            tree.get(file),
            tree.get(patch),
        ) {
            Ok(content) => (tree.insert(output, content), EventView::Patched(Ok(()))),
            Err(detail) => (tree, EventView::Patched(Err(detail))),
        },
        ActionView::Remove { path } => if tree.contains_key(path) {
            (tree.remove(path), EventView::Removed(Ok(())))
        } else {
            (tree, EventView::Removed(Err(not_found())))
        },
        ActionView::Rename { from, to } => if tree.contains_key(from) {
            (tree.remove(from).insert(to, tree[from]), EventView::Renamed(Ok(())))
        } else {
            (tree, EventView::Renamed(Err(not_found())))
        },
        ActionView::Finish { .. } => (tree, EventView::ListRead(ListingView::Absent)),
        ActionView::Abort { .. } => (tree, EventView::ListRead(ListingView::Absent)),
    }
}

/// How many kinds of stage lie ahead at most.
pub open spec fn stages_ahead(stage: Stage) -> nat {
    match stage {
        Stage::Unpacking => 8,
        Stage::ReadingPatchList => 7,
        Stage::Patching(_) => 6,
        Stage::ClosingPatchList => 5,
        Stage::ReadingDeleteList => 4,
        Stage::Deleting => 3,
        Stage::ClosingDeleteList => 2,
        _ => 0,
    }
}

/// How many steps on the entry in turn lie ahead.
pub open spec fn steps_ahead(stage: Stage) -> nat {
    match stage {
        Stage::Patching(PatchStep::Apply) => 3,
        Stage::Patching(PatchStep::RemoveOld) => 2,
        Stage::Patching(PatchStep::RemovePatch) => 1,
        _ => 0,
    }
}

/// The transaction `state` carried to its end among the files `tree`: the
/// state it ends in and the files it leaves.
pub open spec fn run(state: TransactionView, tree: FileTree, around: Surroundings) -> (
    TransactionView,
    FileTree,
)
    decreases stages_ahead(state.stage), state.entries.len() - state.next, steps_ahead(state.stage),
{
    if state.finished() || !state.wf() {
        (state, tree)
    } else {
        let (files, event) = respond(tree, state.pending(), around);
        run(state.advance(event), files, around)
    }
}

} // verus!
