use archive_pipeline::archive::ArchiveEntry;
use archive_pipeline::extract::{unzip_file, ExtractAction, ExtractReply, Extraction};
use archive_pipeline::failure::{Failure, Stage};
use archive_pipeline::path::RelativePath;
use archive_pipeline::progress::{Progress, ProgressKind};

fn path(text: &str) -> RelativePath {
    RelativePath::new(text.to_string()).expect("a confined path")
}

fn file(name: &str, content: &[u8]) -> ArchiveEntry {
    ArchiveEntry::File { path: path(name), content: content.to_vec() }
}

fn directory(name: &str) -> ArchiveEntry {
    ArchiveEntry::Directory { path: path(name) }
}

fn failed(cause: &str) -> ExtractReply {
    ExtractReply::Failed { cause: cause.to_string() }
}

fn failure(stage: Stage, cause: &str) -> ExtractAction {
    ExtractAction::Finish { outcome: Err(Failure { stage, cause: cause.to_string() }) }
}

fn report(index: u64, count: u64) -> Option<Progress> {
    Some(Progress { kind: ProgressKind::Extract, done: index, total: count })
}

/// Feeds the replies in turn and returns the last state with the reports
/// that went out on the way.
fn drive(start: Extraction, replies: Vec<ExtractReply>) -> (Extraction, Vec<Progress>) {
    let mut session = start;
    let mut reports = Vec::new();
    for reply in replies {
        let (moved, emitted) = unzip_file(session, reply);
        session = moved;
        reports.extend(emitted);
    }
    (session, reports)
}

/// A run that has reached the loading of the archive.
fn loaded(entries: Vec<ArchiveEntry>) -> Extraction {
    let replies = vec![
        ExtractReply::Done,
        ExtractReply::Absent,
        ExtractReply::Done,
        ExtractReply::Loaded { entries },
    ];
    drive(Extraction::start(), replies).0
}

#[test]
fn a_run_begins_by_opening_the_archive() {
    let session = Extraction::start();
    assert_eq!(session.pending, ExtractAction::OpenArchive);
    assert!(session.entries.is_empty());
}

#[test]
fn an_absent_target_is_created_without_a_removal() {
    let (session, _) = unzip_file(Extraction::start(), ExtractReply::Done);
    assert_eq!(session.pending, ExtractAction::ProbeTarget);
    let (session, _) = unzip_file(session, ExtractReply::Absent);
    assert_eq!(session.pending, ExtractAction::CreateTarget);
    let (session, _) = unzip_file(session, ExtractReply::Done);
    assert_eq!(session.pending, ExtractAction::LoadArchive);
}

#[test]
fn a_present_target_is_removed_before_it_is_created() {
    let (session, _) = drive(Extraction::start(), vec![ExtractReply::Done, ExtractReply::Present]);
    assert_eq!(session.pending, ExtractAction::RemoveTarget);
    let (session, _) = unzip_file(session, ExtractReply::Done);
    assert_eq!(session.pending, ExtractAction::CreateTarget);
    let (session, _) = unzip_file(session, ExtractReply::Done);
    assert_eq!(session.pending, ExtractAction::LoadArchive);
}

#[test]
fn failures_before_the_archive_is_loaded_name_their_stage() {
    let (session, _) = drive(Extraction::start(), vec![failed("no such file")]);
    assert_eq!(session.pending, failure(Stage::OpenArchive, "no such file"));

    let (session, _) =
        drive(Extraction::start(), vec![ExtractReply::Done, ExtractReply::Present, failed("busy")]);
    assert_eq!(session.pending, failure(Stage::RemoveTarget, "busy"));

    let (session, _) =
        drive(Extraction::start(), vec![ExtractReply::Done, ExtractReply::Absent, failed("denied")]);
    assert_eq!(session.pending, failure(Stage::CreateTarget, "denied"));

    let replies =
        vec![ExtractReply::Done, ExtractReply::Absent, ExtractReply::Done, failed("bad magic")];
    let (session, _) = drive(Extraction::start(), replies);
    assert_eq!(session.pending, failure(Stage::ReadArchive, "bad magic"));
    match session.pending {
        ExtractAction::Finish { outcome: Err(f) } => {
            assert_eq!(f.message(), "Failed to read zip archive: bad magic")
        }
        other => panic!("expected a failure, got {:?}", other),
    }
}

#[test]
fn an_archive_without_entries_ends_in_success_at_once() {
    let session = loaded(Vec::new());
    assert_eq!(session.pending, ExtractAction::Finish { outcome: Ok(()) });
}

#[test]
fn a_directory_entry_is_created_and_reported() {
    let session = loaded(vec![directory("sub")]);
    assert_eq!(session.pending, ExtractAction::CreateDirectory { entry: 0 });
    let (session, emitted) = unzip_file(session, ExtractReply::Done);
    assert_eq!(emitted, report(0, 1));
    assert_eq!(session.pending, ExtractAction::Finish { outcome: Ok(()) });
}

#[test]
fn a_file_entry_goes_through_parent_file_and_content() {
    let session = loaded(vec![file("sub/b.txt", b"world")]);
    assert_eq!(session.pending, ExtractAction::ProbeParent { entry: 0 });
    let (session, emitted) = unzip_file(session, ExtractReply::Absent);
    assert_eq!(emitted, None);
    assert_eq!(session.pending, ExtractAction::CreateParent { entry: 0 });
    let (session, emitted) = unzip_file(session, ExtractReply::Done);
    assert_eq!(emitted, None);
    assert_eq!(session.pending, ExtractAction::CreateFile { entry: 0 });
    let (session, emitted) = unzip_file(session, ExtractReply::Done);
    assert_eq!(emitted, None);
    assert_eq!(session.pending, ExtractAction::WriteContent { entry: 0 });
    let (session, emitted) = unzip_file(session, ExtractReply::Done);
    assert_eq!(emitted, report(0, 1));
    assert_eq!(session.pending, ExtractAction::Finish { outcome: Ok(()) });
}

#[test]
fn an_existing_parent_is_not_created_again() {
    let session = loaded(vec![file("a.txt", b"hello")]);
    let (session, _) = unzip_file(session, ExtractReply::Present);
    assert_eq!(session.pending, ExtractAction::CreateFile { entry: 0 });
}

#[test]
fn entries_are_handled_in_index_order_and_reported_by_index() {
    let session = loaded(vec![file("a.txt", b"hello"), directory("sub"), file("sub/b.txt", b"world")]);
    let replies = vec![
        ExtractReply::Present,
        ExtractReply::Done,
        ExtractReply::Done,
        ExtractReply::Done,
        ExtractReply::Present,
        ExtractReply::Done,
        ExtractReply::Done,
    ];
    let (session, reports) = drive(session, replies);
    assert_eq!(session.pending, ExtractAction::Finish { outcome: Ok(()) });
    assert_eq!(reports, vec![report(0, 3).unwrap(), report(1, 3).unwrap(), report(2, 3).unwrap()]);
    let percentages: Vec<f64> =
        reports.iter().map(|r| r.done as f64 / r.total as f64 * 100.0).collect();
    assert_eq!(percentages[0], 0.0);
    assert_eq!(percentages[1], 1.0 / 3.0 * 100.0);
    assert_eq!(percentages[2], 2.0 / 3.0 * 100.0);
    assert!(percentages.iter().all(|p| *p < 100.0));
}

#[test]
fn rejected_entries_are_passed_over_without_a_report() {
    let session = loaded(vec![
        ArchiveEntry::Rejected,
        file("kept.txt", b"k"),
        ArchiveEntry::Rejected,
        ArchiveEntry::Rejected,
        directory("last"),
        ArchiveEntry::Rejected,
    ]);
    assert_eq!(session.pending, ExtractAction::ProbeParent { entry: 1 });
    let replies = vec![ExtractReply::Present, ExtractReply::Done, ExtractReply::Done];
    let (session, reports) = drive(session, replies);
    assert_eq!(reports, vec![report(1, 6).unwrap()]);
    assert_eq!(session.pending, ExtractAction::CreateDirectory { entry: 4 });
    let (session, emitted) = unzip_file(session, ExtractReply::Done);
    assert_eq!(emitted, report(4, 6));
    assert_eq!(session.pending, ExtractAction::Finish { outcome: Ok(()) });
}

#[test]
fn an_archive_of_rejected_entries_writes_nothing() {
    let session = loaded(vec![ArchiveEntry::Rejected, ArchiveEntry::Rejected]);
    assert_eq!(session.pending, ExtractAction::Finish { outcome: Ok(()) });
}

#[test]
fn an_unreadable_entry_ends_the_run_after_the_entries_before_it() {
    let session = loaded(vec![
        file("first.txt", b"1"),
        ArchiveEntry::Unreadable { cause: "unsupported".to_string() },
        file("never.txt", b"3"),
    ]);
    assert_eq!(session.pending, ExtractAction::ProbeParent { entry: 0 });
    let replies = vec![ExtractReply::Present, ExtractReply::Done, ExtractReply::Done];
    let (session, reports) = drive(session, replies);
    assert_eq!(reports, vec![report(0, 3).unwrap()]);
    assert_eq!(session.pending, failure(Stage::ReadEntry, "unsupported"));
}

#[test]
fn a_damaged_file_fails_after_its_output_file_was_created() {
    let session = loaded(vec![ArchiveEntry::Damaged {
        path: path("broken.txt"),
        cause: "Invalid checksum".to_string(),
    }]);
    assert_eq!(session.pending, ExtractAction::ProbeParent { entry: 0 });
    let (session, _) = unzip_file(session, ExtractReply::Present);
    assert_eq!(session.pending, ExtractAction::CreateFile { entry: 0 });
    let (session, emitted) = unzip_file(session, ExtractReply::Done);
    assert_eq!(emitted, None);
    assert_eq!(session.pending, failure(Stage::CopyContent, "Invalid checksum"));
}

#[test]
fn failures_while_writing_entries_name_their_stage() {
    let (session, _) = drive(loaded(vec![directory("d")]), vec![failed("denied")]);
    assert_eq!(session.pending, failure(Stage::CreateDirectory, "denied"));

    let (session, _) =
        drive(loaded(vec![file("p/f", b"")]), vec![ExtractReply::Absent, failed("denied")]);
    assert_eq!(session.pending, failure(Stage::CreateParent, "denied"));

    let (session, _) =
        drive(loaded(vec![file("p/f", b"")]), vec![ExtractReply::Present, failed("is a directory")]);
    assert_eq!(session.pending, failure(Stage::CreateFile, "is a directory"));

    let replies = vec![ExtractReply::Present, ExtractReply::Done, failed("disk full")];
    let (session, reports) = drive(loaded(vec![file("p/f", b"x"), directory("later")]), replies);
    assert_eq!(session.pending, failure(Stage::CopyContent, "disk full"));
    assert!(reports.is_empty());
}

#[test]
fn extract_reply_that_does_not_answer_the_pending_action_changes_nothing() {
    let (session, emitted) = unzip_file(Extraction::start(), ExtractReply::Present);
    assert_eq!(emitted, None);
    assert_eq!(session, Extraction::start());

    let (session, emitted) = unzip_file(loaded(vec![directory("d")]), ExtractReply::Absent);
    assert_eq!(emitted, None);
    assert_eq!(session, loaded(vec![directory("d")]));

    let probing = drive(Extraction::start(), vec![ExtractReply::Done]).0;
    let (session, _) = unzip_file(probing, failed("cannot tell"));
    assert_eq!(session.pending, ExtractAction::ProbeTarget);
}

#[test]
fn an_action_on_an_entry_that_the_archive_lacks_changes_nothing() {
    let odd = Extraction { pending: ExtractAction::WriteContent { entry: 5 }, entries: vec![directory("d")] };
    let (session, emitted) = unzip_file(odd, ExtractReply::Done);
    assert_eq!(emitted, None);
    assert_eq!(session.pending, ExtractAction::WriteContent { entry: 5 });

    let odd = Extraction { pending: ExtractAction::CreateFile { entry: 0 }, entries: vec![directory("d")] };
    let (session, _) = unzip_file(odd, ExtractReply::Done);
    assert_eq!(session.pending, ExtractAction::CreateFile { entry: 0 });
}

#[test]
fn a_finished_run_stays_finished() {
    let done = loaded(Vec::new());
    let (session, emitted) = unzip_file(done, ExtractReply::Done);
    assert_eq!(emitted, None);
    assert_eq!(session.pending, ExtractAction::Finish { outcome: Ok(()) });

    let (broken, _) = drive(Extraction::start(), vec![failed("gone")]);
    let (session, _) = unzip_file(broken, ExtractReply::Loaded { entries: vec![directory("d")] });
    assert_eq!(session.pending, failure(Stage::OpenArchive, "gone"));
    assert!(session.entries.is_empty());
}

#[test]
fn entry_hands_out_the_entries_of_the_loaded_archive() {
    let session = loaded(vec![file("a.txt", b"hello")]);
    assert_eq!(session.entry(0), Some(&file("a.txt", b"hello")));
    assert_eq!(session.entry(1), None);
}

#[test]
fn a_successful_run_has_written_every_entry_it_accepted() {
    let entries = vec![
        directory("lib"),
        ArchiveEntry::Rejected,
        file("lib/a.so", b"aaa"),
        file("readme", b"r"),
    ];
    let mut session = loaded(entries.clone());
    let mut performed: Vec<String> = Vec::new();
    while !matches!(session.pending, ExtractAction::Finish { .. }) {
        assert!(performed.len() < 100);
        let reply = match session.pending {
            ExtractAction::ProbeParent { .. } => ExtractReply::Absent,
            _ => ExtractReply::Done,
        };
        performed.push(format!("{:?}", session.pending));
        session = unzip_file(session, reply).0;
    }
    assert_eq!(session.pending, ExtractAction::Finish { outcome: Ok(()) });
    let did = |action: ExtractAction| performed.contains(&format!("{:?}", action));
    for (index, entry) in entries.iter().enumerate() {
        match entry {
            ArchiveEntry::Directory { .. } => {
                assert!(did(ExtractAction::CreateDirectory { entry: index }));
            }
            ArchiveEntry::File { .. } => {
                assert!(did(ExtractAction::CreateParent { entry: index }));
                assert!(did(ExtractAction::CreateFile { entry: index }));
                assert!(did(ExtractAction::WriteContent { entry: index }));
            }
            _ => {
                assert!(!did(ExtractAction::CreateDirectory { entry: index }));
                assert!(!did(ExtractAction::ProbeParent { entry: index }));
                assert!(!did(ExtractAction::CreateFile { entry: index }));
                assert!(!did(ExtractAction::WriteContent { entry: index }));
            }
        }
    }
    assert_eq!(performed.len(), 1 + 4 + 4);
}
