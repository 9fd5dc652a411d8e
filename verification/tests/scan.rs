use scanner_core::scan::{rank_dirs, DirCandidate, ScanTally, WalkEntry};

const MS: u64 = 1_000_000;

#[test]
fn totals_roll_up_to_the_root() {
    // root(0) -> a(1) -> b(2); root -> c(3)
    let mut t = ScanTally::new(25, 0);
    let a = t.add_dir(0);
    let b = t.add_dir(a);
    let c = t.add_dir(0);
    t.record_file(1000, a, "root/a/one.bin".into(), 0);
    t.record_file(500, b, "root/a/b/two.bin".into(), 0);
    t.record_file(7, c, "root/c/three.bin".into(), 0);
    t.record_file(3, 0, "root/four.bin".into(), 0);
    let totals = t.totals();
    assert_eq!(totals, vec![1510, 1500, 500, 7]);
    assert_eq!(t.bytes_seen(), 1510);
    assert_eq!(t.file_count(), 4);
}

#[test]
fn scans_a_small_tree() {
    let mut t = ScanTally::new(25, 0);
    let a = t.add_dir(0);
    let b = t.add_dir(a);
    t.record_dir();
    t.record_dir();
    t.record_file(1000, a, "a/one.bin".into(), 0);
    t.record_file(500, b, "a/b/two.bin".into(), 0);
    assert_eq!(t.totals()[0], 1500);
    assert_eq!(t.file_count(), 2);
    assert_eq!(t.dir_count(), 2);
    let files = t.largest_files();
    assert_eq!(files[0].bytes, 1000);
    assert_eq!(files[0].path, "a/one.bin");
}

#[test]
fn candidates_skip_root_and_empty_dirs() {
    let mut t = ScanTally::new(25, 0);
    let a = t.add_dir(0);
    let b = t.add_dir(a);
    let empty = t.add_dir(0);
    t.record_file(10, b, "x".into(), 0);
    t.record_file(0, empty, "y".into(), 0);
    let c = t.dir_candidates();
    let got: Vec<(usize, u64, Option<u64>)> = c.iter().map(|d| (d.dir, d.bytes, d.largest_child)).collect();
    assert_eq!(got, vec![(1, 10, Some(10)), (2, 10, None)]);
}

#[test]
fn largest_files_keep_the_biggest_in_order() {
    let mut t = ScanTally::new(2, 0);
    t.record_file(5, 0, "five".into(), 0);
    t.record_file(9, 0, "nine".into(), 0);
    t.record_file(1, 0, "one".into(), 0);
    t.record_file(7, 0, "seven".into(), 0);
    t.record_file(7, 0, "seven-later".into(), 0);
    let files: Vec<(u64, String)> = t.largest_files().into_iter().map(|f| (f.bytes, f.path)).collect();
    assert_eq!(files, vec![(9, "nine".to_string()), (7, "seven-later".to_string())]);

    let mut none = ScanTally::new(0, 0);
    none.record_file(5, 0, "five".into(), 0);
    assert!(none.largest_files().is_empty());
}

#[test]
fn walking_progress_is_throttled() {
    let mut t = ScanTally::new(1, 1000 * MS);
    assert!(!t.record_file(1, 0, "a".into(), 1100 * MS));
    assert!(t.record_file(1, 0, "b".into(), 1150 * MS));
    assert!(!t.record_file(1, 0, "c".into(), 1299 * MS));
    assert!(t.record_file(1, 0, "d".into(), 1300 * MS));
    let p = t.progress("walking", "d:/x".into());
    assert_eq!((p.phase.as_str(), p.files, p.dirs, p.bytes, p.current_path.as_str()), ("walking", 4, 0, 4, "d:/x"));
}

#[test]
fn counters_count() {
    let mut t = ScanTally::new(1, 0);
    t.record_entry_error();
    t.record_entry_error();
    t.record_dir();
    assert_eq!(t.skipped(), 2);
    assert_eq!(t.dir_count(), 1);
}

#[test]
fn ranking_is_largest_first_and_stable() {
    let c = |dir, bytes| DirCandidate { dir, bytes, largest_child: None };
    let ranked = rank_dirs(&vec![c(1, 5), c(2, 9), c(3, 5), c(4, 1)], 3);
    let got: Vec<(usize, u64)> = ranked.iter().map(|d| (d.dir, d.bytes)).collect();
    assert_eq!(got, vec![(2, 9), (1, 5), (3, 5)]);
    assert!(rank_dirs(&vec![c(1, 5)], 0).is_empty());
    assert_eq!(rank_dirs(&vec![c(1, 5)], 10).len(), 1);
}

#[test]
fn equal_sizes_rank_by_path() {
    // Of two files of one size, the one whose path sorts later is kept.
    let mut t = ScanTally::new(1, 0);
    t.record_file(4, 0, "b".into(), 0);
    t.record_file(4, 0, "a".into(), 0);
    let files: Vec<String> = t.largest_files().into_iter().map(|f| f.path).collect();
    assert_eq!(files, vec!["b".to_string()]);

    // Paths compare component by component: "d/x" sorts before "d-x",
    // although '-' is a smaller character than '/'.
    let mut u = ScanTally::new(3, 0);
    u.record_file(4, 0, "d-x".into(), 0);
    u.record_file(4, 0, "d/x".into(), 0);
    u.record_file(4, 0, "d".into(), 0);
    let files: Vec<String> = u.largest_files().into_iter().map(|f| f.path).collect();
    assert_eq!(files, vec!["d-x".to_string(), "d/x".to_string(), "d".to_string()]);
}

#[test]
fn walk_entries_are_dispatched() {
    let mut t = ScanTally::new(5, 0);
    let a = t.add_dir(0);
    assert!(!t.record_entry(WalkEntry::Unreadable, 0));
    assert!(!t.record_entry(WalkEntry::Directory, 0));
    assert!(!t.record_entry(WalkEntry::Other, 0));
    assert!(t.record_entry(WalkEntry::File { bytes: 12, parent: a, path: "a/f".into() }, 200 * MS));
    assert_eq!(t.skipped(), 1);
    assert_eq!(t.dir_count(), 1);
    assert_eq!(t.file_count(), 1);
    assert_eq!(t.bytes_seen(), 12);
    assert_eq!(t.totals(), vec![12, 12]);
    assert_eq!(t.largest_files()[0].path, "a/f");
}
