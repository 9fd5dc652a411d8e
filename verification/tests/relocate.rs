use scanner_core::classify::Classifier;
use scanner_core::relocate::{
    backup_name, contains_self, insufficient_space, ProgressSink, RelocateAction, RelocateError,
    RelocateEvent, RelocatePaths, Relocation,
};
use scanner_core::rules::RuleSet;
use scanner_core::staleness::app_last_used;
use std::io;

fn classifier() -> Classifier {
    Classifier::new(
        RuleSet::from_rules(Vec::new()).unwrap(),
        RuleSet::from_rules(Vec::new()).unwrap(),
        None,
        Vec::new(),
    )
}

fn paths(src: &str) -> RelocatePaths {
    RelocatePaths {
        src: src.to_string(),
        dest_parent: "E:\\Archive".to_string(),
        dir_name: Some("data".to_string()),
        dest: "E:\\Archive\\data".to_string(),
        backup: format!("{}.cca-backup", src),
    }
}

fn start(src: &str) -> Relocation {
    let mut r = Relocation::new(paths(src), &classifier());
    match r.step(RelocateEvent::Started, 0) {
        RelocateAction::InspectSource { path } => assert_eq!(path, src),
        other => panic!("unexpected {:?}", other),
    }
    r
}

/// Steps through every check up to the rename of the original.
fn to_rename(r: &mut Relocation) {
    let a = r.step(RelocateEvent::SourceInspected { readable: true, is_symlink: false, is_dir: true }, 0);
    assert!(matches!(a, RelocateAction::LocateSelf { .. }));
    let a = r.step(
        RelocateEvent::SelfLocated {
            source: "D:\\data".into(),
            executable: Some("C:\\Program Files\\App\\app.exe".into()),
            working_dir: None,
            data_folder: None,
        },
        0,
    );
    assert!(matches!(a, RelocateAction::CheckIsDir { ref path } if path == "E:\\Archive"));
    let a = r.step(RelocateEvent::Checked(true), 0);
    assert!(matches!(a, RelocateAction::CheckExists { ref path } if path == "E:\\Archive\\data"));
    match r.step(RelocateEvent::Checked(false), 0) {
        RelocateAction::Emit(p) => assert_eq!((p.phase.as_str(), p.bytes_done, p.bytes_total), ("preparing", 0, 0)),
        other => panic!("unexpected {:?}", other),
    }
    assert!(matches!(r.step(RelocateEvent::Done, 0), RelocateAction::MeasureTree { .. }));
    assert!(matches!(r.step(RelocateEvent::Measured(Ok(8192)), 0), RelocateAction::QueryFreeSpace { .. }));
    let a = r.step(RelocateEvent::Measured(Ok(1_000_000)), 0);
    assert!(matches!(a, RelocateAction::CheckExists { ref path } if path == "D:\\data.cca-backup"));
    let a = r.step(RelocateEvent::Checked(false), 0);
    assert!(matches!(a, RelocateAction::Rename { ref from, ref to } if from == "D:\\data" && to == "D:\\data.cca-backup"));
}

fn err(kind: io::ErrorKind) -> io::Error {
    io::Error::new(kind, "test")
}

#[test]
fn reports_progress() {
    let mut r = start("D:\\data");
    to_rename(&mut r);
    match r.step(RelocateEvent::Renamed { result: Ok(()), os_code: None }, 0) {
        RelocateAction::Emit(p) => assert_eq!((p.phase.as_str(), p.bytes_done, p.bytes_total), ("copying", 0, 8192)),
        other => panic!("unexpected {:?}", other),
    }
    let a = r.step(RelocateEvent::Done, 0);
    assert!(matches!(a, RelocateAction::CopyTree { ref from, ref to } if from == "D:\\data.cca-backup" && to == "E:\\Archive\\data"));
    r.start_file("a.bin".into());
    assert!(r.file_progress(100, 50_000_000).is_none());
    assert!(r.copied_file(4096, 60_000_000).is_none());
    r.start_file("b.bin".into());
    let p = r.file_progress(10, 150_000_000).unwrap();
    assert_eq!((p.bytes_done, p.current_file.as_str()), (4106, "b.bin"));
    assert!(r.copied_file(4096, 160_000_000).is_none());
    r.skipped_link();
    match r.step(RelocateEvent::Copied(Ok(())), 0) {
        RelocateAction::Emit(p) => {
            assert_eq!(p.phase, "finalizing");
            assert_eq!(p.bytes_done, 8192);
            assert_eq!(p.bytes_total, 8192);
        }
        other => panic!("unexpected {:?}", other),
    }
    let a = r.step(RelocateEvent::Done, 0);
    assert!(matches!(a, RelocateAction::CreateJunction { ref target, ref link } if target == "E:\\Archive\\data" && link == "D:\\data"));
    let a = r.step(RelocateEvent::Linked(Ok(())), 0);
    assert!(matches!(a, RelocateAction::RemoveTree { ref path } if path == "D:\\data.cca-backup"));
    match r.step(RelocateEvent::Removed(true), 0) {
        RelocateAction::Finish(Ok(rep)) => {
            assert_eq!(rep.files_moved, 2);
            assert_eq!(rep.bytes_moved, 8192);
            assert_eq!(rep.links_skipped, 1);
            assert!(rep.backup_left_at.is_none());
            assert_eq!(rep.src, "D:\\data");
            assert_eq!(rep.dest, "E:\\Archive\\data");
        }
        other => panic!("unexpected {:?}", other),
    }
}

#[test]
fn locked_backup_is_reported() {
    let mut r = start("D:\\data");
    to_rename(&mut r);
    r.step(RelocateEvent::Renamed { result: Ok(()), os_code: None }, 0);
    r.step(RelocateEvent::Done, 0);
    r.step(RelocateEvent::Copied(Ok(())), 0);
    r.step(RelocateEvent::Done, 0);
    r.step(RelocateEvent::Linked(Ok(())), 0);
    match r.step(RelocateEvent::Removed(false), 0) {
        RelocateAction::Finish(Ok(rep)) => assert_eq!(rep.backup_left_at.as_deref(), Some("D:\\data.cca-backup")),
        other => panic!("unexpected {:?}", other),
    }
}

#[test]
fn in_use_folder_fails_cleanly_before_copying() {
    let mut r = start("D:\\data");
    to_rename(&mut r);
    let mut sleeps = Vec::new();
    for _ in 0..3 {
        match r.step(RelocateEvent::Renamed { result: Err(err(io::ErrorKind::PermissionDenied)), os_code: Some(5) }, 0) {
            RelocateAction::Sleep { millis } => sleeps.push(millis),
            other => panic!("unexpected {:?}", other),
        }
        assert!(matches!(r.step(RelocateEvent::Done, 0), RelocateAction::Rename { .. }));
    }
    assert_eq!(sleeps, vec![150, 300, 450]);
    let a = r.step(RelocateEvent::Renamed { result: Err(err(io::ErrorKind::PermissionDenied)), os_code: Some(32) }, 0);
    assert!(matches!(a, RelocateAction::Finish(Err(RelocateError::FolderInUse(_)))));
}

#[test]
fn other_rename_failure_is_backup_rename_failed() {
    let mut r = start("D:\\data");
    to_rename(&mut r);
    for _ in 0..3 {
        r.step(RelocateEvent::Renamed { result: Err(err(io::ErrorKind::Other)), os_code: Some(2) }, 0);
        r.step(RelocateEvent::Done, 0);
    }
    let a = r.step(RelocateEvent::Renamed { result: Err(err(io::ErrorKind::Other)), os_code: None }, 0);
    assert!(matches!(a, RelocateAction::Finish(Err(RelocateError::BackupRenameFailed(_)))));
}

#[test]
fn copy_failure_restores_the_original() {
    let mut r = start("D:\\data");
    to_rename(&mut r);
    r.step(RelocateEvent::Renamed { result: Ok(()), os_code: None }, 0);
    r.step(RelocateEvent::Done, 0);
    let failure = RelocateError::CopyFailed { path: "x".into(), source: err(io::ErrorKind::Other) };
    let a = r.step(RelocateEvent::Copied(Err(failure)), 0);
    assert!(matches!(a, RelocateAction::RemoveTree { ref path } if path == "E:\\Archive\\data"));
    let a = r.step(RelocateEvent::Removed(true), 0);
    assert!(matches!(a, RelocateAction::Rename { ref from, ref to } if from == "D:\\data.cca-backup" && to == "D:\\data"));
    let a = r.step(RelocateEvent::Renamed { result: Ok(()), os_code: None }, 0);
    assert!(matches!(a, RelocateAction::Finish(Err(RelocateError::CopyFailed { ref path, .. })) if path == "x"));
}

#[test]
fn junction_failure_restores_and_removes_copy() {
    let mut r = start("D:\\data");
    to_rename(&mut r);
    r.step(RelocateEvent::Renamed { result: Ok(()), os_code: None }, 0);
    r.step(RelocateEvent::Done, 0);
    r.step(RelocateEvent::Copied(Ok(())), 0);
    r.step(RelocateEvent::Done, 0);
    let a = r.step(RelocateEvent::Linked(Err(err(io::ErrorKind::Other))), 0);
    assert!(matches!(a, RelocateAction::RemoveTree { ref path } if path == "D:\\data"));
    let a = r.step(RelocateEvent::Removed(true), 0);
    assert!(matches!(a, RelocateAction::Rename { ref from, ref to } if from == "D:\\data.cca-backup" && to == "D:\\data"));
    // A failed restore is retried, then given up on.
    for _ in 0..3 {
        assert!(matches!(r.step(RelocateEvent::Renamed { result: Err(err(io::ErrorKind::Other)), os_code: None }, 0), RelocateAction::Sleep { .. }));
        assert!(matches!(r.step(RelocateEvent::Done, 0), RelocateAction::Rename { .. }));
    }
    let a = r.step(RelocateEvent::Renamed { result: Err(err(io::ErrorKind::Other)), os_code: None }, 0);
    assert!(matches!(a, RelocateAction::RemoveTree { ref path } if path == "E:\\Archive\\data"));
    let a = r.step(RelocateEvent::Removed(false), 0);
    assert!(matches!(a, RelocateAction::Finish(Err(RelocateError::JunctionFailed(_)))));
}

#[test]
fn refusals_come_in_order() {
    let mut r = start("D:\\data");
    let a = r.step(RelocateEvent::SourceInspected { readable: false, is_symlink: false, is_dir: false }, 0);
    assert!(matches!(a, RelocateAction::Finish(Err(RelocateError::SourceNotFound(ref p))) if p == "D:\\data"));

    let mut r = start("D:\\data");
    let a = r.step(RelocateEvent::SourceInspected { readable: true, is_symlink: true, is_dir: false }, 0);
    assert!(matches!(a, RelocateAction::Finish(Err(RelocateError::SourceIsLink(_)))));

    let mut r = start("D:\\file.txt");
    let a = r.step(RelocateEvent::SourceInspected { readable: true, is_symlink: false, is_dir: false }, 0);
    assert!(matches!(a, RelocateAction::Finish(Err(RelocateError::SourceNotFound(_)))));

    let mut p = paths("D:\\");
    p.dir_name = None;
    let mut r = Relocation::new(p, &classifier());
    r.step(RelocateEvent::Started, 0);
    let a = r.step(RelocateEvent::SourceInspected { readable: true, is_symlink: false, is_dir: true }, 0);
    assert!(matches!(a, RelocateAction::Finish(Err(RelocateError::SourceIsRoot))));

    let mut r = start("C:\\Windows\\Fonts");
    let a = r.step(RelocateEvent::SourceInspected { readable: true, is_symlink: false, is_dir: true }, 0);
    assert!(matches!(a, RelocateAction::Finish(Err(RelocateError::SourceIsOsCritical(_)))));
}

#[test]
fn refuses_to_move_its_own_folder() {
    let mut r = start("D:\\Apps\\Cleanup");
    r.step(RelocateEvent::SourceInspected { readable: true, is_symlink: false, is_dir: true }, 0);
    let a = r.step(
        RelocateEvent::SelfLocated {
            source: "D:\\Apps\\Cleanup".into(),
            executable: Some("D:\\apps\\cleanup\\app.exe".into()),
            working_dir: None,
            data_folder: None,
        },
        0,
    );
    assert!(matches!(a, RelocateAction::Finish(Err(RelocateError::SourceContainsSelf("executable")))));
}

#[test]
fn refuses_dest_inside_source() {
    let p = paths("D:\\data");
    let mut r = Relocation::with_containment(p, &classifier(), true);
    r.step(RelocateEvent::Started, 0);
    r.step(RelocateEvent::SourceInspected { readable: true, is_symlink: false, is_dir: true }, 0);
    r.step(RelocateEvent::SelfLocated { source: "D:\\data".into(), executable: None, working_dir: None, data_folder: None }, 0);
    let a = r.step(RelocateEvent::Checked(true), 0);
    assert!(matches!(a, RelocateAction::Finish(Err(RelocateError::DestInsideSource))));
}

#[test]
fn refuses_occupied_destination() {
    let mut r = start("D:\\data");
    r.step(RelocateEvent::SourceInspected { readable: true, is_symlink: false, is_dir: true }, 0);
    r.step(RelocateEvent::SelfLocated { source: "D:\\data".into(), executable: None, working_dir: None, data_folder: None }, 0);
    assert!(matches!(r.step(RelocateEvent::Checked(false), 0), RelocateAction::Finish(Err(RelocateError::DestNotFound(_)))));

    let mut r = start("D:\\data");
    r.step(RelocateEvent::SourceInspected { readable: true, is_symlink: false, is_dir: true }, 0);
    r.step(RelocateEvent::SelfLocated { source: "D:\\data".into(), executable: None, working_dir: None, data_folder: None }, 0);
    r.step(RelocateEvent::Checked(true), 0);
    let a = r.step(RelocateEvent::Checked(true), 0);
    assert!(matches!(a, RelocateAction::Finish(Err(RelocateError::DestOccupied(ref p))) if p == "E:\\Archive\\data"));
}

#[test]
fn space_and_leftovers_are_checked() {
    let mut r = start("D:\\data");
    r.step(RelocateEvent::SourceInspected { readable: true, is_symlink: false, is_dir: true }, 0);
    r.step(RelocateEvent::SelfLocated { source: "D:\\data".into(), executable: None, working_dir: None, data_folder: None }, 0);
    r.step(RelocateEvent::Checked(true), 0);
    r.step(RelocateEvent::Checked(false), 0);
    r.step(RelocateEvent::Done, 0);
    r.step(RelocateEvent::Measured(Ok(2000)), 0);
    let a = r.step(RelocateEvent::Measured(Ok(2099)), 0);
    assert!(matches!(a, RelocateAction::Finish(Err(RelocateError::InsufficientSpace { needed: 2000, available: 2099 }))));

    let mut r = start("D:\\data");
    to_rename_until_backup_check(&mut r);
    let a = r.step(RelocateEvent::Checked(true), 0);
    assert!(matches!(a, RelocateAction::Finish(Err(RelocateError::BackupLeftover(ref p))) if p == "D:\\data.cca-backup"));

    let mut r = start("D:\\data");
    r.step(RelocateEvent::SourceInspected { readable: true, is_symlink: false, is_dir: true }, 0);
    r.step(RelocateEvent::SelfLocated { source: "D:\\data".into(), executable: None, working_dir: None, data_folder: None }, 0);
    r.step(RelocateEvent::Checked(true), 0);
    r.step(RelocateEvent::Checked(false), 0);
    r.step(RelocateEvent::Done, 0);
    let a = r.step(RelocateEvent::Measured(Err(err(io::ErrorKind::Other))), 0);
    assert!(matches!(a, RelocateAction::Finish(Err(RelocateError::Io(_)))));
}

fn to_rename_until_backup_check(r: &mut Relocation) {
    r.step(RelocateEvent::SourceInspected { readable: true, is_symlink: false, is_dir: true }, 0);
    r.step(RelocateEvent::SelfLocated { source: "D:\\data".into(), executable: None, working_dir: None, data_folder: None }, 0);
    r.step(RelocateEvent::Checked(true), 0);
    r.step(RelocateEvent::Checked(false), 0);
    r.step(RelocateEvent::Done, 0);
    r.step(RelocateEvent::Measured(Ok(2000)), 0);
    r.step(RelocateEvent::Measured(Ok(2100)), 0);
}

#[test]
fn space_check_has_five_percent_headroom() {
    assert!(!insufficient_space(2000, 2100));
    assert!(insufficient_space(2000, 2099));
    assert!(insufficient_space(u64::MAX, u64::MAX));
    assert!(!insufficient_space(0, 0));
}

#[test]
fn backup_name_appends_suffix() {
    assert_eq!(backup_name("my.folder"), "my.folder.cca-backup");
}

#[test]
fn contains_self_checks_in_order() {
    let exe = Some("D:\\Tools\\App\\bin\\app.exe".to_string());
    let cwd = Some("d:/tools/app".to_string());
    assert_eq!(contains_self("D:\\Tools\\App", &exe, &cwd, &None), Some("executable"));
    assert_eq!(contains_self("D:\\Tools\\App", &None, &cwd, &None), Some("working directory"));
    let data = Some("C:\\Users\\me\\AppData\\Local\\com.x".to_string());
    assert_eq!(contains_self("C:\\Users\\me\\AppData", &None, &None, &data), Some("data folder"));
    assert_eq!(contains_self("D:\\Tools\\Ap", &exe, &cwd, &data), None);
}

#[test]
fn sink_throttles_copying_events() {
    let mut sink = ProgressSink { bytes_total: 10, bytes_done: 4, current_file: "f".into(), last_emit: 0 };
    assert!(sink.emit_throttled(1, 99_999_999).is_none());
    let p = sink.emit_throttled(1, 100_000_000).unwrap();
    assert_eq!((p.phase.as_str(), p.bytes_done, p.bytes_total, p.current_file.as_str()), ("copying", 5, 10, "f"));
    assert_eq!(sink.last_emit, 100_000_000);
    let p = sink.emit_now("finalizing", 0, 7);
    assert_eq!((p.phase.as_str(), p.bytes_done), ("finalizing", 4));
    assert_eq!(sink.last_emit, 7);
}

#[test]
fn throttled_events_are_spaced() {
    let mut sink = ProgressSink { bytes_total: 10, bytes_done: 0, current_file: "f".into(), last_emit: 0 };
    assert!(sink.event_due(100_000_000));
    assert!(sink.emit_throttled(2, 100_000_000).is_some());
    // Quiet calls leave the clock alone, so the next event waits a full
    // interval after the last one sent.
    assert!(!sink.event_due(150_000_000));
    assert!(sink.emit_throttled(3, 150_000_000).is_none());
    assert!(sink.emit_throttled(3, 199_999_999).is_none());
    assert_eq!(sink.last_emit, 100_000_000);
    assert!(sink.emit_throttled(3, 200_000_000).is_some());
    // A call that emits nothing adds no bytes, even on a full counter.
    let mut full = ProgressSink { bytes_total: 1, bytes_done: u64::MAX, current_file: String::new(), last_emit: 5 };
    assert!(full.emit_throttled(u64::MAX, 6).is_none());
}

#[test]
fn no_usage_signal_yet() {
    assert!(app_last_used("C:\\app.exe").is_none());
}

#[test]
fn relocates_and_links() {
    let mut r = start("D:\\data");
    to_rename(&mut r);
    r.step(RelocateEvent::Renamed { result: Ok(()), os_code: None }, 0);
    r.step(RelocateEvent::Done, 0);
    r.start_file("a.bin".into());
    r.copied_file(300, 0);
    r.start_file("sub\\b.bin".into());
    r.copied_file(200, 0);
    r.step(RelocateEvent::Copied(Ok(())), 0);
    let a = r.step(RelocateEvent::Done, 0);
    assert!(matches!(a, RelocateAction::CreateJunction { .. }));
    r.step(RelocateEvent::Linked(Ok(())), 0);
    match r.step(RelocateEvent::Removed(true), 0) {
        RelocateAction::Finish(Ok(rep)) => {
            assert_eq!(rep.files_moved, 2);
            assert_eq!(rep.bytes_moved, 500);
            assert!(rep.backup_left_at.is_none());
        }
        other => panic!("unexpected {:?}", other),
    }
}

#[test]
fn dest_below_source_is_detected() {
    let inside = RelocatePaths {
        src: "D:/data".to_string(),
        dest_parent: "D:/data/sub".to_string(),
        dir_name: Some("data".to_string()),
        dest: "D:/data/sub/data".to_string(),
        backup: "D:/data.cca-backup".to_string(),
    };
    let mut r = Relocation::new(inside, &classifier());
    r.step(RelocateEvent::Started, 0);
    r.step(RelocateEvent::SourceInspected { readable: true, is_symlink: false, is_dir: true }, 0);
    r.step(RelocateEvent::SelfLocated { source: "D:/data".into(), executable: None, working_dir: None, data_folder: None }, 0);
    let a = r.step(RelocateEvent::Checked(true), 0);
    assert!(matches!(a, RelocateAction::Finish(Err(RelocateError::DestInsideSource))));

    // A sibling whose name merely starts with the source's name is not inside.
    let beside = RelocatePaths {
        src: "D:/data".to_string(),
        dest_parent: "D:/database".to_string(),
        dir_name: Some("data".to_string()),
        dest: "D:/database/data".to_string(),
        backup: "D:/data.cca-backup".to_string(),
    };
    let mut r = Relocation::new(beside, &classifier());
    r.step(RelocateEvent::Started, 0);
    r.step(RelocateEvent::SourceInspected { readable: true, is_symlink: false, is_dir: true }, 0);
    r.step(RelocateEvent::SelfLocated { source: "D:/data".into(), executable: None, working_dir: None, data_folder: None }, 0);
    let a = r.step(RelocateEvent::Checked(true), 0);
    assert!(!matches!(a, RelocateAction::Finish(Err(RelocateError::DestInsideSource))));
}
