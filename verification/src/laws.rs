//! What holds of every transaction, proved over the model of its
//! surroundings.

use crate::error::DiffDownloadErrorView;
use crate::manifest::{record_payload, spec_lines};
use crate::model::{not_text, respond, run, stages_ahead, steps_ahead, FileTree, Surroundings};
use crate::transaction::{
    delete_list_path, entry_path, lemma_advance_wf, output_path, patch_list_path, patch_path,
    EventView, PatchStep, Stage, TransactionView,
};
use vstd::prelude::*;

verus! {

/// The files that the lines of a patch list name in the destination `path`.
pub open spec fn named_files(path: Seq<char>, lines: Seq<Seq<char>>) -> Seq<Seq<char>> {
    Seq::new(lines.len(), |i: int| entry_path(path, record_payload(lines[i]).unwrap()))
}

/// Every line is a record that names a file.
pub open spec fn all_records(lines: Seq<Seq<char>>) -> bool {
    forall|i: int| 0 <= i < lines.len() ==> (#[trigger] record_payload(lines[i])) is Some
}

/// Whether patching `file` reads or writes `path`: the file itself, its
/// patch, or its patched copy.
pub open spec fn touches(file: Seq<char>, path: Seq<char>) -> bool {
    path == file || path == patch_path(file) || path == output_path(file)
}

/// Whether patching one of the first `count` of `files` touches `path`.
pub open spec fn touched(files: Seq<Seq<char>>, count: int, path: Seq<char>) -> bool {
    exists|i: int| 0 <= i < count && i < files.len() && #[trigger] touches(files[i], path)
}

/// No path that is touched for one of `files` is touched for another.
pub open spec fn apart(files: Seq<Seq<char>>) -> bool {
    forall|i: int, j: int|
        #![trigger files[i], files[j]]
        0 <= i < files.len() && 0 <= j < files.len() && i != j ==> !touches(files[i], files[j])
            && !touches(files[i], patch_path(files[j])) && !touches(
            files[i],
            output_path(files[j]),
        )
}

/// `path` exists in both trees with one content, or in neither.
pub open spec fn same_at(first: FileTree, second: FileTree, path: Seq<char>) -> bool {
    first.get(path) == second.get(path)
}

/// What the patch engine makes of `file` and its patch as `tree` holds them.
pub open spec fn engine_result(tree: FileTree, around: Surroundings, file: Seq<char>) -> Result<
    Seq<char>,
    Seq<char>,
> {
    (around.engine)(tree.get(file), tree.get(patch_path(file)))
}

/// `file` and its patch exist in `tree`, and the patch engine accepts them.
pub open spec fn patchable(tree: FileTree, around: Surroundings, file: Seq<char>) -> bool {
    &&& tree.contains_key(file)
    &&& tree.contains_key(patch_path(file))
    &&& engine_result(tree, around, file) is Ok
}

/// `after` is `before` with the first `count` of `files` patched: each holds
/// what the engine made of it, its patch and its patched copy are gone, and
/// every path that was not touched for them is as it was.
pub open spec fn patched_up_to(
    before: FileTree,
    after: FileTree,
    files: Seq<Seq<char>>,
    around: Surroundings,
    count: int,
) -> bool {
    &&& forall|i: int|
        0 <= i < count && i < files.len() ==> {
            &&& after.get(#[trigger] files[i]) == Some(
                engine_result(before, around, files[i])->Ok_0,
            )
            &&& !after.contains_key(patch_path(files[i]))
            &&& !after.contains_key(output_path(files[i]))
        }
    &&& forall|path: Seq<char>|
        !touched(files, count, path) ==> #[trigger] same_at(before, after, path)
}

/// A run takes one step after the other.
proof fn lemma_step(state: TransactionView, tree: FileTree, around: Surroundings)
    requires
        !state.finished(),
        state.wf(),
    ensures
        run(state, tree, around) == run(
            state.advance(respond(tree, state.pending(), around).1),
            respond(tree, state.pending(), around).0,
            around,
        ),
{
}

/// The two lists lie at different paths.
proof fn lemma_lists_differ(dir: Seq<char>)
    ensures
        patch_list_path(dir) != delete_list_path(dir),
{
    reveal_strlit("/hdifffiles.txt");
    reveal_strlit("/deletefiles.txt");
    assert(patch_list_path(dir)[dir.len() as int + 1] == 'h');
    assert(delete_list_path(dir)[dir.len() as int + 1] == 'd');
}

/// A file, its patch and its patched copy lie at three different paths.
proof fn lemma_entry_paths_differ(file: Seq<char>)
    ensures
        file != patch_path(file),
        file != output_path(file),
        patch_path(file) != output_path(file),
{
    reveal_strlit(".hdiff");
    reveal_strlit(".hdiff_patched");
    assert(patch_path(file).len() == file.len() + 6);
    assert(output_path(file).len() == file.len() + 14);
}

/// Where the destination holds neither list, a transaction that has unpacked
/// the archive ends in success and leaves every file as it is.
pub proof fn law_nothing_to_do(state: TransactionView, tree: FileTree, around: Surroundings)
    requires
        state.stage is ReadingPatchList,
        !tree.contains_key(patch_list_path(state.path)),
        !tree.contains_key(delete_list_path(state.path)),
    ensures
        run(state, tree, around) == (state.at(Stage::Done), tree),
{
    lemma_step(state, tree, around);
    lemma_step(state.at(Stage::ReadingDeleteList), tree, around);
}

/// Where the destination holds no patch list, a transaction that has
/// unpacked the archive goes on with the delete list, the files as they are.
pub proof fn law_no_patch_list(state: TransactionView, tree: FileTree, around: Surroundings)
    requires
        state.stage is ReadingPatchList,
        !tree.contains_key(patch_list_path(state.path)),
    ensures
        run(state, tree, around) == run(state.at(Stage::ReadingDeleteList), tree, around),
{
    lemma_step(state, tree, around);
}

/// Where the entries keep apart, the paths of an entry are not touched
/// before it comes in turn.
proof fn lemma_untouched_so_far(files: Seq<Seq<char>>, count: int, index: int)
    requires
        apart(files),
        0 <= count <= index < files.len(),
    ensures
        !touched(files, count, files[index]),
        !touched(files, count, patch_path(files[index])),
        !touched(files, count, output_path(files[index])),
{
    assert forall|i: int| 0 <= i < count implies !touches(files[i], files[index]) && !touches(
        files[i],
        patch_path(files[index]),
    ) && !touches(files[i], output_path(files[index])) by {
        let _ = files[i];
        let _ = files[index];
    }
}

/// The four steps on one entry of the patch list: its file is patched, and
/// the transaction turns to the next entry.
proof fn lemma_patch_one(
    state: TransactionView,
    before: FileTree,
    tree: FileTree,
    around: Surroundings,
) -> (after: FileTree)
    requires
        state.stage == Stage::Patching(PatchStep::Apply),
        state.wf(),
        apart(named_files(state.path, state.entries)),
        patched_up_to(
            before,
            tree,
            named_files(state.path, state.entries),
            around,
            state.next as int,
        ),
        patchable(before, around, named_files(state.path, state.entries)[state.next as int]),
    ensures
        patched_up_to(
            before,
            after,
            named_files(state.path, state.entries),
            around,
            state.next as int + 1,
        ),
        run(state, tree, around) == run(state.patch_entry(state.next + 1), after, around),
{
    let files = named_files(state.path, state.entries);
    let k = state.next as int;
    let file = files[k];
    let patch = patch_path(file);
    let output = output_path(file);
    assert(state.file() == file);
    lemma_entry_paths_differ(file);
    lemma_untouched_so_far(files, k, k);
    assert(same_at(before, tree, file));
    assert(same_at(before, tree, patch));
    let content = engine_result(before, around, file)->Ok_0;

    lemma_step(state, tree, around);
    let tree1 = tree.insert(output, content);
    let state1 = state.at(Stage::Patching(PatchStep::RemoveOld));
    assert(respond(tree, state.pending(), around) == (tree1, EventView::Patched(Ok(()))));

    lemma_step(state1, tree1, around);
    let tree2 = tree1.remove(file);
    let state2 = state.at(Stage::Patching(PatchStep::RemovePatch));
    assert(state1.file() == file);
    assert(respond(tree1, state1.pending(), around) == (tree2, EventView::Removed(Ok(()))));

    lemma_step(state2, tree2, around);
    let tree3 = tree2.remove(patch);
    let state3 = state.at(Stage::Patching(PatchStep::Rename));
    assert(state2.file() == file);
    assert(respond(tree2, state2.pending(), around) == (tree3, EventView::Removed(Ok(()))));

    lemma_step(state3, tree3, around);
    let tree4 = tree3.remove(output).insert(file, content);
    assert(state3.file() == file);
    assert(respond(tree3, state3.pending(), around) == (tree4, EventView::Renamed(Ok(()))));
    assert(state3.patch_entry(state3.next + 1) == state.patch_entry(state.next + 1));

    assert forall|i: int| 0 <= i < k + 1 && i < files.len() implies {
        &&& tree4.get(#[trigger] files[i]) == Some(engine_result(before, around, files[i])->Ok_0)
        &&& !tree4.contains_key(patch_path(files[i]))
        &&& !tree4.contains_key(output_path(files[i]))
    } by {
        if i < k {
            let _ = files[k];
            assert(!touches(file, files[i]));
            assert(!touches(file, patch_path(files[i])));
            assert(!touches(file, output_path(files[i])));
        }
    }
    assert forall|path: Seq<char>| !touched(files, k + 1, path) implies #[trigger] same_at(
        before,
        tree4,
        path,
    ) by {
        assert(!touches(files[k], path));
        if touched(files, k, path) {
            let i = choose|i: int| 0 <= i < k && i < files.len() && #[trigger] touches(
                files[i],
                path,
            );
            assert(touches(files[i], path));
        }
        assert(same_at(before, tree, path));
    }
    tree4
}

/// The patch pass from the entry in turn up to entry `end`: every file on the
/// way is patched.
proof fn lemma_patch_through(
    state: TransactionView,
    before: FileTree,
    tree: FileTree,
    around: Surroundings,
    end: int,
) -> (after: FileTree)
    requires
        state.stage == Stage::Patching(PatchStep::Apply),
        state.wf(),
        all_records(state.entries),
        apart(named_files(state.path, state.entries)),
        state.next <= end <= state.entries.len(),
        patched_up_to(
            before,
            tree,
            named_files(state.path, state.entries),
            around,
            state.next as int,
        ),
        forall|i: int|
            state.next <= i < end ==> patchable(
                before,
                around,
                #[trigger] named_files(state.path, state.entries)[i],
            ),
    ensures
        patched_up_to(before, after, named_files(state.path, state.entries), around, end),
        run(state, tree, around) == run(state.patch_entry(end as nat), after, around),
    decreases end - state.next,
{
    let files = named_files(state.path, state.entries);
    if state.next == end {
        assert(state.patch_entry(end as nat) == state);
        tree
    } else {
        let _ = files[state.next as int];
        let once = lemma_patch_one(state, before, tree, around);
        let next = state.patch_entry(state.next + 1);
        if state.next + 1 == end {
            once
        } else {
            assert(state.next + 1 < state.entries.len());
            assert(record_payload(state.entries[state.next as int + 1]) is Some);
            assert(next.patch_entry(end as nat) == state.patch_entry(end as nat));
            lemma_patch_through(next, before, once, around, end)
        }
    }
}

/// `after` is `before` once the patch pass is over: each of `files` holds
/// what the engine made of it; the patches, the patched copies and the patch
/// list at `list` are gone; every other path is as it was.
pub open spec fn patches_applied(
    before: FileTree,
    after: FileTree,
    files: Seq<Seq<char>>,
    list: Seq<char>,
    around: Surroundings,
) -> bool {
    &&& forall|i: int|
        0 <= i < files.len() ==> {
            &&& after.get(#[trigger] files[i]) == Some(
                engine_result(before, around, files[i])->Ok_0,
            )
            &&& !after.contains_key(patch_path(files[i]))
            &&& !after.contains_key(output_path(files[i]))
        }
    &&& !after.contains_key(list)
    &&& forall|path: Seq<char>|
        !touched(files, files.len() as int, path) && path != list ==> #[trigger] same_at(
            before,
            after,
            path,
        )
}

/// What the patch pass needs to go through: the patch list is there and can
/// be read, every line of it is a record, each file it names exists with its
/// patch, the patch engine accepts them all, and the entries keep apart: no
/// path that is touched for one entry is touched for another or is the patch
/// list.
pub open spec fn patch_pass_ready(path: Seq<char>, tree: FileTree, around: Surroundings) -> bool {
    let list = patch_list_path(path);
    let files = named_files(path, spec_lines(tree[list]));
    &&& tree.contains_key(list)
    &&& !around.unreadable.contains(list)
    &&& all_records(spec_lines(tree[list]))
    &&& apart(files)
    &&& forall|i: int|
        0 <= i < files.len() ==> patchable(tree, around, #[trigger] files[i]) && !touches(
            files[i],
            list,
        )
}

/// The patch pass by itself. Where the destination is ready for it, a
/// transaction that has unpacked the archive goes on as one that is about to
/// read the delete list, among the files `after`: every listed file holds
/// what the engine made of it; the patches, the patched copies and the patch
/// list are gone; every other file is as it was.
pub proof fn law_patch_pass(state: TransactionView, tree: FileTree, around: Surroundings) -> (after:
    FileTree)
    requires
        state.stage is ReadingPatchList,
        patch_pass_ready(state.path, tree, around),
    ensures
        run(state, tree, around) == run(
            TransactionView {
                stage: Stage::ReadingDeleteList,
                entries: spec_lines(tree[patch_list_path(state.path)]),
                next: spec_lines(tree[patch_list_path(state.path)]).len(),
                ..state
            },
            after,
            around,
        ),
        patches_applied(
            tree,
            after,
            named_files(state.path, spec_lines(tree[patch_list_path(state.path)])),
            patch_list_path(state.path),
            around,
        ),
{
    let list = patch_list_path(state.path);
    let lines = spec_lines(tree[list]);
    let files = named_files(state.path, lines);
    let count = lines.len();
    lemma_step(state, tree, around);
    let loaded = TransactionView { entries: lines, ..state };
    let first = loaded.patch_entry(0);
    assert(run(state, tree, around) == run(first, tree, around));
    assert(named_files(first.path, first.entries) == files);
    let patched = if count == 0 {
        tree
    } else {
        assert(record_payload(lines[0]) is Some);
        assert(first.patch_entry(count) == loaded.patch_entry(count));
        lemma_patch_through(first, tree, tree, around, count as int)
    };
    let closing = loaded.patch_entry(count);
    assert(run(state, tree, around) == run(closing, patched, around));
    assert(patched_up_to(tree, patched, files, around, count as int));
    assert(!touched(files, count as int, list));
    assert(same_at(tree, patched, list));
    lemma_step(closing, patched, around);
    let after = patched.remove(list);
    assert forall|path: Seq<char>|
        !touched(files, files.len() as int, path) && path != list implies #[trigger] same_at(
        tree,
        after,
        path,
    ) by {
        assert(same_at(tree, patched, path));
    }
    after
}

/// Where the destination holds no delete list when its turn comes, the
/// transaction ends in success and leaves every file as it is.
pub proof fn law_no_delete_list(state: TransactionView, tree: FileTree, around: Surroundings)
    requires
        state.stage is ReadingDeleteList,
        !tree.contains_key(delete_list_path(state.path)),
    ensures
        run(state, tree, around) == (state.at(Stage::Done), tree),
{
    lemma_step(state, tree, around);
}

/// A list that is there and cannot be read ends the transaction: it is given
/// up with the list's path and the system's message, and every file is as it
/// was.
pub proof fn law_unreadable_list(state: TransactionView, tree: FileTree, around: Surroundings)
    requires
        state.stage is ReadingPatchList || state.stage is ReadingDeleteList,
    ensures
        ({
            let list = if state.stage is ReadingPatchList {
                patch_list_path(state.path)
            } else {
                delete_list_path(state.path)
            };
            tree.contains_key(list) && around.unreadable.contains(list) ==> run(
                state,
                tree,
                around,
            ) == (state.unreadable(list, not_text()), tree)
        }),
{
    lemma_step(state, tree, around);
}

/// Where the destination is ready for the patch pass and holds no delete
/// list: the transaction ends in success; every listed file holds what the
/// engine made of it; the patches, the patched copies and the patch list are
/// gone; every other file is as it was.
///
/// This is stated for patch lists of which no entry touches the path of the
/// delete list.
pub proof fn law_patches_applied(state: TransactionView, tree: FileTree, around: Surroundings)
    requires
        state.stage is ReadingPatchList,
        patch_pass_ready(state.path, tree, around),
        !tree.contains_key(delete_list_path(state.path)),
        !touched(
            named_files(state.path, spec_lines(tree[patch_list_path(state.path)])),
            spec_lines(tree[patch_list_path(state.path)]).len() as int,
            delete_list_path(state.path),
        ),
    ensures
        run(state, tree, around).0.stage is Done,
        patches_applied(
            tree,
            run(state, tree, around).1,
            named_files(state.path, spec_lines(tree[patch_list_path(state.path)])),
            patch_list_path(state.path),
            around,
        ),
{
    lemma_lists_differ(state.path);
    let after = law_patch_pass(state, tree, around);
    let lines = spec_lines(tree[patch_list_path(state.path)]);
    let reading = TransactionView {
        stage: Stage::ReadingDeleteList,
        entries: lines,
        next: lines.len(),
        ..state
    };
    assert(same_at(tree, after, delete_list_path(state.path)));
    law_no_delete_list(reading, after, around);
}

/// Where the patch engine accepts the files of the entries before entry
/// `failing` of the patch list and rejects that of entry `failing`: the
/// transaction ends with the engine's message; the files before are patched,
/// their patches and patched copies gone; every other file is as it was, the
/// files and patches of the entries from `failing` on among them.
///
/// This is stated for lists whose entries keep apart: no path that is touched
/// for one entry is touched for another.
pub proof fn law_patch_rejected(
    state: TransactionView,
    tree: FileTree,
    around: Surroundings,
    failing: int,
)
    requires
        state.stage is ReadingPatchList,
        tree.contains_key(patch_list_path(state.path)),
        !around.unreadable.contains(patch_list_path(state.path)),
        all_records(spec_lines(tree[patch_list_path(state.path)])),
        apart(named_files(state.path, spec_lines(tree[patch_list_path(state.path)]))),
        0 <= failing < spec_lines(tree[patch_list_path(state.path)]).len(),
        forall|i: int|
            0 <= i < failing ==> patchable(
                tree,
                around,
                #[trigger] named_files(
                    state.path,
                    spec_lines(tree[patch_list_path(state.path)]),
                )[i],
            ),
        engine_result(
            tree,
            around,
            named_files(state.path, spec_lines(tree[patch_list_path(state.path)]))[failing],
        ) is Err,
    ensures
        ({
            let files = named_files(state.path, spec_lines(tree[patch_list_path(state.path)]));
            let (end, after) = run(state, tree, around);
            &&& end.stage == Stage::Failed(
                DiffDownloadErrorView::HdiffPatch(
                    engine_result(tree, around, files[failing])->Err_0,
                ),
            )
            &&& patched_up_to(tree, after, files, around, failing)
            &&& forall|i: int|
                failing <= i < files.len() ==> same_at(tree, after, #[trigger] files[i])
                    && same_at(tree, after, patch_path(files[i]))
        }),
{
    let list = patch_list_path(state.path);
    let lines = spec_lines(tree[list]);
    let files = named_files(state.path, lines);
    lemma_step(state, tree, around);
    let loaded = TransactionView { entries: lines, ..state };
    let first = loaded.patch_entry(0);
    assert(record_payload(lines[0]) is Some);
    assert(record_payload(lines[failing]) is Some);
    assert(named_files(first.path, first.entries) == files);
    assert(first.patch_entry(failing as nat) == loaded.patch_entry(failing as nat));
    let patched = lemma_patch_through(first, tree, tree, around, failing);
    let stuck = loaded.patch_entry(failing as nat);
    assert(run(state, tree, around) == run(stuck, patched, around));
    lemma_untouched_so_far(files, failing, failing);
    assert(same_at(tree, patched, files[failing]));
    assert(same_at(tree, patched, patch_path(files[failing])));
    assert(stuck.file() == files[failing]);
    lemma_step(stuck, patched, around);
    assert forall|i: int| failing <= i < files.len() implies same_at(
        tree,
        patched,
        #[trigger] files[i],
    ) && same_at(tree, patched, patch_path(files[i])) by {
        lemma_untouched_so_far(files, failing, i);
    }
}

/// The files that the lines of a delete list name in the destination `path`.
pub open spec fn listed_files(path: Seq<char>, lines: Seq<Seq<char>>) -> Seq<Seq<char>> {
    Seq::new(lines.len(), |i: int| entry_path(path, lines[i]))
}

/// Whether one of the first `count` of `files` is `path`.
pub open spec fn listed(files: Seq<Seq<char>>, count: int, path: Seq<char>) -> bool {
    files.take(count).contains(path)
}

/// `after` is `before` without the first `count` of `files`; every other
/// path is as it was.
pub open spec fn removed_up_to(
    before: FileTree,
    after: FileTree,
    files: Seq<Seq<char>>,
    count: int,
) -> bool {
    &&& forall|i: int| 0 <= i < count && i < files.len() ==> !after.contains_key(#[trigger] files[i])
    &&& forall|path: Seq<char>|
        !listed(files, count, path) ==> #[trigger] same_at(before, after, path)
}

/// `after` is `before` once the delete pass is over: none of `files` exists,
/// the delete list at `list` is gone, and every other path is as it was.
pub open spec fn files_deleted(
    before: FileTree,
    after: FileTree,
    files: Seq<Seq<char>>,
    list: Seq<char>,
) -> bool {
    &&& forall|i: int| 0 <= i < files.len() ==> !after.contains_key(#[trigger] files[i])
    &&& !after.contains_key(list)
    &&& forall|path: Seq<char>|
        !files.contains(path) && path != list ==> #[trigger] same_at(before, after, path)
}

/// What the delete pass needs to go through: the delete list is there and can
/// be read, no line of it stands twice, and each file it names in the
/// destination exists and is not the delete list itself.
pub open spec fn delete_pass_ready(path: Seq<char>, tree: FileTree, around: Surroundings) -> bool {
    let list = delete_list_path(path);
    let lines = spec_lines(tree[list]);
    &&& tree.contains_key(list)
    &&& !around.unreadable.contains(list)
    &&& lines.no_duplicates()
    &&& forall|i: int|
        0 <= i < lines.len() ==> {
            let file = #[trigger] listed_files(path, lines)[i];
            tree.contains_key(file) && file != list
        }
}

/// Two names of one directory that give one path are one name.
proof fn lemma_entry_path_injective(dir: Seq<char>, first: Seq<char>, second: Seq<char>)
    requires
        entry_path(dir, first) == entry_path(dir, second),
    ensures
        first == second,
{
    let prefix = dir + "/"@;
    assert(first =~= (prefix + first).skip(prefix.len() as int));
    assert(second =~= (prefix + second).skip(prefix.len() as int));
}

/// A list without a line twice names no file twice.
proof fn lemma_listed_files_differ(path: Seq<char>, lines: Seq<Seq<char>>)
    requires
        lines.no_duplicates(),
    ensures
        listed_files(path, lines).no_duplicates(),
{
    let files = listed_files(path, lines);
    assert forall|i: int, j: int| 0 <= i < files.len() && 0 <= j < files.len() && i != j implies files[i]
        != files[j] by {
        if files[i] == files[j] {
            lemma_entry_path_injective(path, lines[i], lines[j]);
        }
    }
}

/// The delete pass from the entry in turn to the end of the list: every file
/// on the way is removed.
proof fn lemma_delete_through(
    state: TransactionView,
    before: FileTree,
    tree: FileTree,
    around: Surroundings,
) -> (after: FileTree)
    requires
        state.stage is Deleting,
        state.wf(),
        listed_files(state.path, state.entries).no_duplicates(),
        removed_up_to(before, tree, listed_files(state.path, state.entries), state.next as int),
        forall|i: int|
            state.next <= i < state.entries.len() ==> before.contains_key(
                #[trigger] listed_files(state.path, state.entries)[i],
            ),
    ensures
        removed_up_to(
            before,
            after,
            listed_files(state.path, state.entries),
            state.entries.len() as int,
        ),
        run(state, tree, around) == run(
            state.delete_entry(state.entries.len()),
            after,
            around,
        ),
    decreases state.entries.len() - state.next,
{
    let files = listed_files(state.path, state.entries);
    let k = state.next as int;
    let path = files[k];
    assert(state.outdated_file() == path);
    assert(!listed(files, k, path)) by {
        if listed(files, k, path) {
            let i = choose|i: int| 0 <= i < files.take(k).len() && files.take(k)[i] == path;
            assert(files[i] == files[k]);
        }
    }
    assert(same_at(before, tree, path));
    lemma_step(state, tree, around);
    let once = tree.remove(path);
    let next = state.delete_entry(state.next + 1);
    assert(respond(tree, state.pending(), around) == (once, EventView::Removed(Ok(()))));
    assert forall|other: Seq<char>| !listed(files, k + 1, other) implies #[trigger] same_at(
        before,
        once,
        other,
    ) by {
        assert(files.take(k + 1)[k] == path);
        if listed(files, k, other) {
            let i = choose|i: int| 0 <= i < files.take(k).len() && files.take(k)[i] == other;
            assert(files.take(k + 1)[i] == other);
        }
        assert(same_at(before, tree, other));
    }
    if k + 1 == files.len() {
        once
    } else {
        assert(next.delete_entry(state.entries.len()) == state.delete_entry(state.entries.len()));
        assert(listed_files(next.path, next.entries) == files);
        lemma_delete_through(next, before, once, around)
    }
}

/// Where the destination is ready for the delete pass when its turn comes:
/// the transaction ends in success; none of the files that the list names in
/// the destination exists any more; the delete list is gone; every other file
/// is as it was.
pub proof fn law_files_deleted(state: TransactionView, tree: FileTree, around: Surroundings)
    requires
        state.stage is ReadingDeleteList,
        delete_pass_ready(state.path, tree, around),
    ensures
        run(state, tree, around).0.stage is Done,
        files_deleted(
            tree,
            run(state, tree, around).1,
            listed_files(state.path, spec_lines(tree[delete_list_path(state.path)])),
            delete_list_path(state.path),
        ),
{
    let list = delete_list_path(state.path);
    let lines = spec_lines(tree[list]);
    let files = listed_files(state.path, lines);
    lemma_listed_files_differ(state.path, lines);
    lemma_step(state, tree, around);
    let loaded = TransactionView { entries: lines, ..state };
    let first = loaded.delete_entry(0);
    assert(files.take(0) =~= Seq::<Seq<char>>::empty());
    let cleared = if lines.len() == 0 {
        tree
    } else {
        assert(first.delete_entry(lines.len()) == loaded.delete_entry(lines.len()));
        assert(listed_files(first.path, first.entries) == files);
        lemma_delete_through(first, tree, tree, around)
    };
    let closing = loaded.delete_entry(lines.len());
    assert(run(state, tree, around) == run(closing, cleared, around));
    assert(files.take(files.len() as int) =~= files);
    assert(!listed(files, files.len() as int, list)) by {
        if files.contains(list) {
            let i = choose|i: int| 0 <= i < files.len() && files[i] == list;
            let _ = files[i];
        }
    }
    assert(same_at(tree, cleared, list));
    lemma_step(closing, cleared, around);
    let after = cleared.remove(list);
    assert(run(state, tree, around) == (closing.at(Stage::Done), after));
    assert forall|path: Seq<char>| !files.contains(path) && path != list implies #[trigger] same_at(
        tree,
        after,
        path,
    ) by {
        assert(same_at(tree, cleared, path));
    }
}

/// Both passes together. Where the destination is ready for the patch pass
/// and holds a delete list that can be read, without a line twice, whose
/// files exist: the transaction ends in success; every file of the patch list
/// holds what the engine made of it; the patches, the patched copies and both
/// lists are gone; none of the files of the delete list exists any more;
/// every other file is as it was.
///
/// This is stated for lists that keep apart: no entry of the patch list
/// touches the delete list or a file that the delete list names, and the
/// delete list names neither list.
pub proof fn law_patched_and_deleted(state: TransactionView, tree: FileTree, around: Surroundings)
    requires
        state.stage is ReadingPatchList,
        patch_pass_ready(state.path, tree, around),
        delete_pass_ready(state.path, tree, around),
        !touched(
            named_files(state.path, spec_lines(tree[patch_list_path(state.path)])),
            spec_lines(tree[patch_list_path(state.path)]).len() as int,
            delete_list_path(state.path),
        ),
        forall|j: int|
            0 <= j < spec_lines(tree[delete_list_path(state.path)]).len() ==> {
                let file = #[trigger] listed_files(
                    state.path,
                    spec_lines(tree[delete_list_path(state.path)]),
                )[j];
                &&& file != patch_list_path(state.path)
                &&& !touched(
                    named_files(state.path, spec_lines(tree[patch_list_path(state.path)])),
                    spec_lines(tree[patch_list_path(state.path)]).len() as int,
                    file,
                )
            },
    ensures
        ({
            let patched = named_files(state.path, spec_lines(tree[patch_list_path(state.path)]));
            let deleted = listed_files(state.path, spec_lines(tree[delete_list_path(state.path)]));
            let (end, after) = run(state, tree, around);
            &&& end.stage is Done
            &&& forall|i: int|
                0 <= i < patched.len() ==> {
                    &&& after.get(#[trigger] patched[i]) == Some(
                        engine_result(tree, around, patched[i])->Ok_0,
                    )
                    &&& !after.contains_key(patch_path(patched[i]))
                    &&& !after.contains_key(output_path(patched[i]))
                }
            &&& forall|j: int| 0 <= j < deleted.len() ==> !after.contains_key(#[trigger] deleted[j])
            &&& !after.contains_key(patch_list_path(state.path))
            &&& !after.contains_key(delete_list_path(state.path))
            &&& forall|path: Seq<char>|
                !touched(patched, patched.len() as int, path) && !deleted.contains(path) && path
                    != patch_list_path(state.path) && path != delete_list_path(state.path)
                    ==> #[trigger] same_at(tree, after, path)
        }),
{
    let patch_list = patch_list_path(state.path);
    let delete_list = delete_list_path(state.path);
    let lines = spec_lines(tree[patch_list]);
    let patched = named_files(state.path, lines);
    let deleted = listed_files(state.path, spec_lines(tree[delete_list]));
    lemma_lists_differ(state.path);
    let middle = law_patch_pass(state, tree, around);
    let reading = TransactionView {
        stage: Stage::ReadingDeleteList,
        entries: lines,
        next: lines.len(),
        ..state
    };
    assert(same_at(tree, middle, delete_list));
    assert forall|j: int| 0 <= j < deleted.len() implies middle.contains_key(
        #[trigger] deleted[j],
    ) by {
        assert(same_at(tree, middle, deleted[j]));
    }
    law_files_deleted(reading, middle, around);
    let after = run(state, tree, around).1;
    assert forall|i: int| 0 <= i < patched.len() implies {
        &&& after.get(#[trigger] patched[i]) == Some(engine_result(tree, around, patched[i])->Ok_0)
        &&& !after.contains_key(patch_path(patched[i]))
        &&& !after.contains_key(output_path(patched[i]))
    } by {
        let file = patched[i];
        assert(touches(file, file) && touches(file, patch_path(file)) && touches(
            file,
            output_path(file),
        ));
        assert forall|path: Seq<char>| touches(file, path) implies !deleted.contains(path)
            && path != delete_list by {
            assert(touched(patched, patched.len() as int, path));
            if deleted.contains(path) {
                let j = choose|j: int| 0 <= j < deleted.len() && deleted[j] == path;
                let _ = deleted[j];
            }
        }
        assert(same_at(middle, after, file));
        assert(same_at(middle, after, patch_path(file)));
        assert(same_at(middle, after, output_path(file)));
    }
    assert(same_at(middle, after, patch_list)) by {
        if deleted.contains(patch_list) {
            let j = choose|j: int| 0 <= j < deleted.len() && deleted[j] == patch_list;
            let _ = deleted[j];
        }
    }
    assert forall|path: Seq<char>|
        !touched(patched, patched.len() as int, path) && !deleted.contains(path) && path
            != patch_list && path != delete_list implies #[trigger] same_at(tree, after, path) by {
        assert(same_at(tree, middle, path));
        assert(same_at(middle, after, path));
    }
}

/// No transaction that ends in success leaves a list behind.
proof fn lemma_success_leaves_no_list(state: TransactionView, tree: FileTree, around: Surroundings)
    requires
        state.wf(),
        state.stage is ReadingDeleteList || state.stage is Deleting
            || state.stage is ClosingDeleteList || state.stage is Done ==> !tree.contains_key(
            patch_list_path(state.path),
        ),
        state.stage is Done ==> !tree.contains_key(delete_list_path(state.path)),
    ensures
        run(state, tree, around).0.stage is Done ==> {
            &&& !run(state, tree, around).1.contains_key(patch_list_path(state.path))
            &&& !run(state, tree, around).1.contains_key(delete_list_path(state.path))
        },
    decreases stages_ahead(state.stage), state.entries.len() - state.next, steps_ahead(state.stage),
{
    if !state.finished() {
        let (files, event) = respond(tree, state.pending(), around);
        lemma_advance_wf(state, event);
        lemma_lists_differ(state.path);
        lemma_success_leaves_no_list(state.advance(event), files, around);
    }
}

/// Where a transaction that has unpacked the archive ended in success, a
/// second one on the files it left, for the same destination, ends in success
/// too and leaves every file as it is.
pub proof fn law_rerun_changes_nothing(
    state: TransactionView,
    tree: FileTree,
    around: Surroundings,
    again: TransactionView,
)
    requires
        state.stage is ReadingPatchList,
        run(state, tree, around).0.stage is Done,
        again.stage is ReadingPatchList,
        again.path == state.path,
    ensures
        run(again, run(state, tree, around).1, around) == (
            again.at(Stage::Done),
            run(state, tree, around).1,
        ),
{
    lemma_success_leaves_no_list(state, tree, around);
    law_nothing_to_do(again, run(state, tree, around).1, around);
}

} // verus!
