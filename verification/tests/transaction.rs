use std::collections::BTreeMap;

use version_diff::error::DiffDownloadError;
use version_diff::resolution::VersionDiff;
use version_diff::transaction::{Action, DiffTransaction, Event, Listing};
use version_diff::version::Version;

type Files = BTreeMap<String, String>;

#[derive(Debug)]
enum Ending {
    Finished(Result<(), DiffDownloadError>),
    Aborted(String),
}

fn start(path: &str) -> DiffTransaction {
    let diff = VersionDiff::Diff {
        current: Version::new(3, 1, 0),
        latest: Version::new(3, 2, 0),
        url: String::from("https://example.org/diff.zip"),
        download_size: 10,
        unpacked_size: 20,
        unpacking_path: None,
    };
    diff.install_to(path).unwrap()
}

fn files(entries: &[(&str, &str)]) -> Files {
    entries.iter().map(|(path, content)| (String::from(*path), String::from(*content))).collect()
}

fn record(path: &str) -> String {
    format!("{{\"remoteName\": \"{}\"}}\n", path)
}

fn joining_engine(old: &str, patch: &str) -> Result<String, String> {
    Ok(format!("{}+{}", old, patch))
}

fn remove(tree: &mut Files, path: &str) -> Result<(), String> {
    match tree.remove(path) {
        Some(_) => Ok(()),
        None => Err(String::from("No such file or directory")),
    }
}

/// Performs every action on `tree`, as a file system would, and reports the
/// actions that were asked for.
fn carry_out(
    mut transaction: DiffTransaction,
    tree: &mut Files,
    unpacked: &Files,
    engine: &dyn Fn(&str, &str) -> Result<String, String>,
) -> (Ending, Vec<String>) {
    let mut log = Vec::new();
    for _ in 0..10_000 {
        let action = transaction.pending();
        log.push(format!("{:?}", action));
        let event = match action {
            Action::Unpack { .. } => {
                for (path, content) in unpacked {
                    tree.insert(path.clone(), content.clone());
                }
                Event::Unpacked(Ok(()))
            }
            Action::ReadList { path } => Event::ListRead(match tree.get(&path) {
                Some(text) => Listing::Text(text.clone()),
                None => Listing::Absent,
            }),
            Action::Patch { file, patch, output } => match (tree.get(&file), tree.get(&patch)) {
                (Some(old), Some(with)) => match engine(old, with) {
                    Ok(content) => {
                        tree.insert(output, content);
                        Event::Patched(Ok(()))
                    }
                    Err(detail) => Event::Patched(Err(detail)),
                },
                _ => Event::Patched(Err(String::from("missing input"))),
            },
            Action::Remove { path } => Event::Removed(remove(tree, &path)),
            Action::Rename { from, to } => match tree.remove(&from) {
                Some(content) => {
                    tree.insert(to, content);
                    Event::Renamed(Ok(()))
                }
                None => Event::Renamed(Err(String::from("No such file or directory"))),
            },
            Action::Finish { result } => {
                assert!(transaction.finished());
                return (Ending::Finished(result), log);
            }
            Action::Abort { message } => {
                assert!(transaction.finished());
                return (Ending::Aborted(message), log);
            }
        };
        assert!(!transaction.finished());
        transaction = transaction.advance(event);
    }
    panic!("the transaction does not end");
}

#[test]
fn every_listed_file_is_patched() {
    let list = [record("a.pck"), record("data/b.pck"), record("c")].concat();
    let unpacked = files(&[
        ("/game/hdifffiles.txt", &list),
        ("/game/a.pck.hdiff", "pa"),
        ("/game/data/b.pck.hdiff", "pb"),
        ("/game/c.hdiff", "pc"),
        ("/game/new.bin", "n"),
    ]);
    let mut tree = files(&[
        ("/game/a.pck", "a0"),
        ("/game/data/b.pck", "b0"),
        ("/game/c", "c0"),
        ("/game/other.bin", "o"),
        ("/game/c.hdiff_patched", "stale"),
    ]);
    let (ending, _) = carry_out(start("/game"), &mut tree, &unpacked, &joining_engine);
    assert!(matches!(ending, Ending::Finished(Ok(()))));
    assert_eq!(
        tree,
        files(&[
            ("/game/a.pck", "a0+pa"),
            ("/game/data/b.pck", "b0+pb"),
            ("/game/c", "c0+pc"),
            ("/game/new.bin", "n"),
            ("/game/other.bin", "o"),
        ])
    );
}

#[test]
fn one_entry_takes_four_steps_in_order() {
    let unpacked = files(&[("/game/hdifffiles.txt", &record("a.pck")), ("/game/a.pck.hdiff", "p")]);
    let mut tree = files(&[("/game/a.pck", "a")]);
    let (ending, log) = carry_out(start("/game"), &mut tree, &unpacked, &joining_engine);
    assert!(matches!(ending, Ending::Finished(Ok(()))));
    assert_eq!(
        log,
        vec![
            "Unpack { url: \"https://example.org/diff.zip\", path: \"/game\", temp_path: None }",
            "ReadList { path: \"/game/hdifffiles.txt\" }",
            "Patch { file: \"/game/a.pck\", patch: \"/game/a.pck.hdiff\", output: \"/game/a.pck.hdiff_patched\" }",
            "Remove { path: \"/game/a.pck\" }",
            "Remove { path: \"/game/a.pck.hdiff\" }",
            "Rename { from: \"/game/a.pck.hdiff_patched\", to: \"/game/a.pck\" }",
            "Remove { path: \"/game/hdifffiles.txt\" }",
            "ReadList { path: \"/game/deletefiles.txt\" }",
            "Finish { result: Ok(()) }",
        ]
    );
}

#[test]
fn rejected_patch_stops_the_transaction() {
    let list = [record("a"), record("b"), record("c")].concat();
    let unpacked = files(&[
        ("/game/hdifffiles.txt", &list),
        ("/game/a.hdiff", "pa"),
        ("/game/b.hdiff", "bad"),
        ("/game/c.hdiff", "pc"),
        ("/game/deletefiles.txt", "old\n"),
    ]);
    let mut tree = files(&[("/game/a", "a0"), ("/game/b", "b0"), ("/game/c", "c0"), ("/game/old", "x")]);
    let engine = |old: &str, patch: &str| {
        if patch == "bad" {
            Err(format!("cannot patch {}", old))
        } else {
            joining_engine(old, patch)
        }
    };
    let (ending, log) = carry_out(start("/game"), &mut tree, &unpacked, &engine);
    match ending {
        Ending::Finished(Err(DiffDownloadError::HdiffPatch(detail))) => {
            assert_eq!(detail, "cannot patch b0")
        }
        other => panic!("unexpected ending: {:?}", other),
    }
    assert_eq!(
        tree,
        files(&[
            ("/game/a", "a0+pa"),
            ("/game/b", "b0"),
            ("/game/b.hdiff", "bad"),
            ("/game/c", "c0"),
            ("/game/c.hdiff", "pc"),
            ("/game/deletefiles.txt", "old\n"),
            ("/game/hdifffiles.txt", &list),
            ("/game/old", "x"),
        ])
    );
    assert_eq!(
        log.last().unwrap(),
        "Finish { result: Err(HdiffPatch(\"cannot patch b0\")) }"
    );
    assert!(log.iter().all(|action| !action.contains("/game/c")));
}

#[test]
fn rejected_first_patch_leaves_everything() {
    let list = [record("a"), record("b")].concat();
    let unpacked = files(&[("/game/hdifffiles.txt", &list), ("/game/a.hdiff", "pa"), ("/game/b.hdiff", "pb")]);
    let mut tree = files(&[("/game/a", "a0"), ("/game/b", "b0")]);
    let engine = |_: &str, _: &str| Err(String::from("no"));
    let (ending, _) = carry_out(start("/game"), &mut tree, &unpacked, &engine);
    assert!(matches!(ending, Ending::Finished(Err(DiffDownloadError::HdiffPatch(detail))) if detail == "no"));
    assert_eq!(
        tree,
        files(&[
            ("/game/a", "a0"),
            ("/game/a.hdiff", "pa"),
            ("/game/b", "b0"),
            ("/game/b.hdiff", "pb"),
            ("/game/hdifffiles.txt", &list),
        ])
    );
}

#[test]
fn every_listed_file_is_deleted() {
    let unpacked = files(&[("/game/deletefiles.txt", "old/one.bin\r\ntwo\nthree\n")]);
    let mut tree = files(&[
        ("/game/old/one.bin", "1"),
        ("/game/two", "2"),
        ("/game/three", "3"),
        ("/game/four", "kept"),
        ("three", "outside"),
        ("/other/two", "outside"),
    ]);
    let (ending, log) = carry_out(start("/game"), &mut tree, &unpacked, &joining_engine);
    assert!(matches!(ending, Ending::Finished(Ok(()))));
    assert_eq!(
        tree,
        files(&[("/game/four", "kept"), ("/other/two", "outside"), ("three", "outside")])
    );
    assert_eq!(
        log,
        vec![
            "Unpack { url: \"https://example.org/diff.zip\", path: \"/game\", temp_path: None }",
            "ReadList { path: \"/game/hdifffiles.txt\" }",
            "ReadList { path: \"/game/deletefiles.txt\" }",
            "Remove { path: \"/game/old/one.bin\" }",
            "Remove { path: \"/game/two\" }",
            "Remove { path: \"/game/three\" }",
            "Remove { path: \"/game/deletefiles.txt\" }",
            "Finish { result: Ok(()) }",
        ]
    );
}

#[test]
fn listed_file_outside_the_destination_does_not_count() {
    let unpacked = files(&[("/game/deletefiles.txt", "a\n")]);
    let mut tree = files(&[("a", "outside"), ("/a", "outside")]);
    let (ending, _) = carry_out(start("/game"), &mut tree, &unpacked, &joining_engine);
    assert!(matches!(ending, Ending::Aborted(message)
        if message == "Failed to remove outdated file: /game/a: No such file or directory"));
    assert_eq!(
        tree,
        files(&[("/a", "outside"), ("/game/deletefiles.txt", "a\n"), ("a", "outside")])
    );
}

#[test]
fn patches_come_before_deletions() {
    let unpacked = files(&[
        ("/game/hdifffiles.txt", &record("a")),
        ("/game/a.hdiff", "p"),
        ("/game/deletefiles.txt", "b"),
    ]);
    let mut tree = files(&[("/game/a", "a"), ("/game/b", "b")]);
    let (ending, _) = carry_out(start("/game"), &mut tree, &unpacked, &joining_engine);
    assert!(matches!(ending, Ending::Finished(Ok(()))));
    assert_eq!(tree, files(&[("/game/a", "a+p")]));
}

#[test]
fn empty_lists_are_only_removed() {
    let unpacked = files(&[("/game/hdifffiles.txt", ""), ("/game/deletefiles.txt", "")]);
    let mut tree = files(&[("/game/a", "a")]);
    let (ending, log) = carry_out(start("/game"), &mut tree, &unpacked, &joining_engine);
    assert!(matches!(ending, Ending::Finished(Ok(()))));
    assert_eq!(tree, files(&[("/game/a", "a")]));
    assert_eq!(log.len(), 6);
}

#[test]
fn without_lists_nothing_changes() {
    let unpacked = files(&[("/game/new", "n")]);
    let mut tree = files(&[("/game/a", "a"), ("/game/a.hdiff", "p")]);
    let (ending, log) = carry_out(start("/game"), &mut tree, &unpacked, &joining_engine);
    assert!(matches!(ending, Ending::Finished(Ok(()))));
    assert_eq!(tree, files(&[("/game/a", "a"), ("/game/a.hdiff", "p"), ("/game/new", "n")]));
    assert_eq!(log.len(), 4);
}

#[test]
fn second_run_changes_nothing() {
    let unpacked = files(&[
        ("/game/hdifffiles.txt", &record("a")),
        ("/game/a.hdiff", "p"),
        ("/game/deletefiles.txt", "b\n"),
    ]);
    let mut tree = files(&[("/game/a", "a"), ("/game/b", "b"), ("/game/c", "c")]);
    let (ending, _) = carry_out(start("/game"), &mut tree, &unpacked, &joining_engine);
    assert!(matches!(ending, Ending::Finished(Ok(()))));
    let left = tree.clone();
    assert_eq!(left, files(&[("/game/a", "a+p"), ("/game/c", "c")]));
    let (ending, _) = carry_out(start("/game"), &mut tree, &Files::new(), &joining_engine);
    assert!(matches!(ending, Ending::Finished(Ok(()))));
    assert_eq!(tree, left);
}

#[test]
fn transport_failure_ends_the_transaction() {
    let transaction = start("/game").advance(Event::Unpacked(Err(curl::Error::new(6))));
    assert!(transaction.finished());
    match transaction.pending() {
        Action::Finish { result: Err(DiffDownloadError::Curl(error)) } => {
            assert!(error.is_couldnt_resolve_host())
        }
        other => panic!("unexpected action: {:?}", other),
    }
    let transaction = transaction.advance(Event::Unpacked(Ok(())));
    assert!(matches!(
        transaction.pending(),
        Action::Finish { result: Err(DiffDownloadError::Curl(_)) }
    ));
}

#[test]
fn missing_file_of_the_delete_list_is_fatal() {
    let unpacked = files(&[("/game/deletefiles.txt", "a\nmissing\nb\n")]);
    let mut tree = files(&[("/game/a", "a"), ("/game/b", "b")]);
    let (ending, _) = carry_out(start("/game"), &mut tree, &unpacked, &joining_engine);
    match ending {
        Ending::Aborted(message) => assert_eq!(
            message,
            "Failed to remove outdated file: /game/missing: No such file or directory"
        ),
        other => panic!("unexpected ending: {:?}", other),
    }
    assert_eq!(
        tree,
        files(&[("/game/b", "b"), ("/game/deletefiles.txt", "a\nmissing\nb\n")])
    );
}

#[test]
fn empty_line_of_the_delete_list_is_fatal() {
    let unpacked = files(&[("/game/deletefiles.txt", "\na\n")]);
    let mut tree = files(&[("/game/a", "a")]);
    let (ending, _) = carry_out(start("/game"), &mut tree, &unpacked, &joining_engine);
    assert!(matches!(ending, Ending::Aborted(message)
        if message == "Failed to remove outdated file: /game/: No such file or directory"));
    assert!(tree.contains_key("/game/a"));
}

#[test]
fn file_listed_twice_is_fatal_the_second_time() {
    let unpacked = files(&[("/game/deletefiles.txt", "a\na\n")]);
    let mut tree = files(&[("/game/a", "a")]);
    let (ending, _) = carry_out(start("/game"), &mut tree, &unpacked, &joining_engine);
    assert!(matches!(ending, Ending::Aborted(_)));
    assert_eq!(tree, files(&[("/game/deletefiles.txt", "a\na\n")]));
}

#[test]
fn unreadable_patch_list_is_fatal() {
    let transaction = start("/game")
        .advance(Event::Unpacked(Ok(())))
        .advance(Event::ListRead(Listing::Unreadable(String::from("invalid UTF-8"))));
    assert!(transaction.finished());
    assert!(matches!(transaction.pending(), Action::Abort { message }
        if message == "Failed to read /game/hdifffiles.txt: invalid UTF-8"));
}

#[test]
fn unreadable_delete_list_is_fatal() {
    let transaction = start("/game")
        .advance(Event::Unpacked(Ok(())))
        .advance(Event::ListRead(Listing::Absent))
        .advance(Event::ListRead(Listing::Unreadable(String::from("permission denied"))));
    assert!(transaction.finished());
    assert!(matches!(transaction.pending(), Action::Abort { message }
        if message == "Failed to read /game/deletefiles.txt: permission denied"));
}

#[test]
fn both_lists_leave_patched_files_and_no_list() {
    let list = [record("a"), record("b")].concat();
    let unpacked = files(&[
        ("/game/hdifffiles.txt", &list),
        ("/game/a.hdiff", "pa"),
        ("/game/b.hdiff", "pb"),
        ("/game/deletefiles.txt", "old/x\nold/y\n"),
    ]);
    let mut tree = files(&[
        ("/game/a", "a0"),
        ("/game/b", "b0"),
        ("/game/old/x", "x"),
        ("/game/old/y", "y"),
        ("/game/z", "z"),
    ]);
    let (ending, _) = carry_out(start("/game"), &mut tree, &unpacked, &joining_engine);
    assert!(matches!(ending, Ending::Finished(Ok(()))));
    assert_eq!(tree, files(&[("/game/a", "a0+pa"), ("/game/b", "b0+pb"), ("/game/z", "z")]));
}

#[test]
fn malformed_record_is_fatal_when_its_turn_comes() {
    let list = [record("a"), String::from("b.pck\n"), record("c")].concat();
    let unpacked = files(&[
        ("/game/hdifffiles.txt", &list),
        ("/game/a.hdiff", "pa"),
        ("/game/c.hdiff", "pc"),
    ]);
    let mut tree = files(&[("/game/a", "a0"), ("/game/c", "c0")]);
    let (ending, _) = carry_out(start("/game"), &mut tree, &unpacked, &joining_engine);
    assert!(matches!(ending, Ending::Aborted(message)
        if message == "Malformed record in hdifffiles.txt: b.pck"));
    assert_eq!(
        tree,
        files(&[
            ("/game/a", "a0+pa"),
            ("/game/c", "c0"),
            ("/game/c.hdiff", "pc"),
            ("/game/hdifffiles.txt", &list),
        ])
    );
}

fn at_first_patch() -> DiffTransaction {
    let transaction = start("/game")
        .advance(Event::Unpacked(Ok(())))
        .advance(Event::ListRead(Listing::Text(record("a"))));
    assert!(matches!(transaction.pending(), Action::Patch { .. }));
    transaction
}

#[test]
fn failing_file_operations_abort_with_their_message() {
    let transaction = at_first_patch()
        .advance(Event::Patched(Ok(())))
        .advance(Event::Removed(Err(String::from("denied"))));
    assert!(matches!(transaction.pending(), Action::Abort { message }
        if message == "Failed to remove hdiff patch: /game/a: denied"));

    let transaction = at_first_patch()
        .advance(Event::Patched(Ok(())))
        .advance(Event::Removed(Ok(())))
        .advance(Event::Removed(Err(String::from("denied"))));
    assert!(matches!(transaction.pending(), Action::Abort { message }
        if message == "Failed to remove hdiff patch: /game/a.hdiff: denied"));

    let transaction = at_first_patch()
        .advance(Event::Patched(Ok(())))
        .advance(Event::Removed(Ok(())))
        .advance(Event::Removed(Ok(())))
        .advance(Event::Renamed(Err(String::from("busy"))));
    assert!(matches!(transaction.pending(), Action::Abort { message }
        if message == "Failed to rename hdiff patch: /game/a: busy"));

    let transaction = at_first_patch()
        .advance(Event::Patched(Ok(())))
        .advance(Event::Removed(Ok(())))
        .advance(Event::Removed(Ok(())))
        .advance(Event::Renamed(Ok(())))
        .advance(Event::Removed(Err(String::from("read-only"))));
    assert!(matches!(transaction.pending(), Action::Abort { message }
        if message == "Failed to remove hdifffiles.txt: read-only"));

    let transaction = start("/game")
        .advance(Event::Unpacked(Ok(())))
        .advance(Event::ListRead(Listing::Absent))
        .advance(Event::ListRead(Listing::Text(String::new())))
        .advance(Event::Removed(Err(String::from("read-only"))));
    assert!(matches!(transaction.pending(), Action::Abort { message }
        if message == "Failed to remove deletefiles.txt: read-only"));
    assert!(transaction.finished());
}

#[test]
fn event_that_answers_nothing_is_ignored() {
    let transaction = start("/game")
        .advance(Event::ListRead(Listing::Absent))
        .advance(Event::Patched(Ok(())))
        .advance(Event::Removed(Ok(())))
        .advance(Event::Renamed(Ok(())));
    assert!(matches!(transaction.pending(), Action::Unpack { .. }));

    let transaction = at_first_patch()
        .advance(Event::Removed(Ok(())))
        .advance(Event::Renamed(Ok(())))
        .advance(Event::Unpacked(Ok(())))
        .advance(Event::ListRead(Listing::Absent));
    assert!(matches!(transaction.pending(), Action::Patch { .. }));

    let transaction = at_first_patch().advance(Event::Patched(Ok(()))).advance(Event::Renamed(Ok(())));
    assert!(matches!(transaction.pending(), Action::Remove { path } if path == "/game/a"));
}

#[test]
fn finished_transaction_stays_finished() {
    let transaction = start("/game").advance(Event::Unpacked(Ok(()))).advance(Event::ListRead(Listing::Absent)).advance(
        Event::ListRead(Listing::Absent),
    );
    assert!(transaction.finished());
    let transaction = transaction
        .advance(Event::ListRead(Listing::Text(String::from("x"))))
        .advance(Event::Removed(Ok(())))
        .advance(Event::Unpacked(Ok(())));
    assert!(matches!(transaction.pending(), Action::Finish { result: Ok(()) }));
}
