use ferrosync_core::engine::concurrent::{
    ConcurrentPipeline, TaskResult, TaskRun, TransferPool,
};
use ferrosync_core::engine::file_decision::{
    check_alt_dest, check_existence_skip, check_size_limits, compute_itemized, create_backup,
    is_unsafe_symlink, quick_check_skip, resolve_link_dest_dirs, set_file_metadata,
    write_file_with_options,
};
use ferrosync_core::engine::progress::{ProgressEvent, ProgressTracker};
use ferrosync_core::error::{FsError, IoErrorKind, IoFailure};
use ferrosync_core::filelist::entry::FileEntry;
use ferrosync_core::fs::plan::{FsAction, WriteMethod};
use ferrosync_core::fs::unix::UnixFileSystem;
use ferrosync_core::fs::FileMetadata;
use ferrosync_core::options::TransferOptions;

fn meta(len: i64, mtime: i64) -> FileMetadata {
    FileMetadata {
        len,
        mtime,
        mtime_nsec: 0,
        mode: 0o100644,
        uid: 1,
        gid: 2,
        rdev: 0,
        dev: 3,
        ino: 4,
        nlink: 1,
    }
}

fn make_entry(name: &str, len: i64, mtime: i64) -> FileEntry {
    FileEntry {
        name: name.as_bytes().to_vec(),
        len,
        mtime,
        mode: 0o100644,
        ..Default::default()
    }
}

#[test]
fn test_pool_clamps_concurrency() {
    let pool = TransferPool::new(0);
    assert_eq!(pool.max_concurrent(), 1);

    let pool = TransferPool::new(100);
    assert_eq!(pool.max_concurrent(), 64);

    let pool = TransferPool::new(4);
    assert_eq!(pool.max_concurrent(), 4);
}

#[test]
fn pipeline_construction() {
    let p = ConcurrentPipeline::new(4);
    assert_eq!(p.concurrency(), 4);
    assert!(!p.is_sequential());

    let p = ConcurrentPipeline::new(1);
    assert_eq!(p.concurrency(), 1);
    assert!(p.is_sequential());
}

#[test]
fn pipeline_clamps_range() {
    let p = ConcurrentPipeline::new(0);
    assert_eq!(p.concurrency(), 1);

    let p = ConcurrentPipeline::new(100);
    assert_eq!(p.concurrency(), 64);
}

#[test]
fn options_concurrent_default() {
    let opts = TransferOptions::default();
    assert_eq!(opts.concurrent(), 1);
}

#[test]
fn options_concurrent_builder() {
    let opts = TransferOptions::builder().concurrent(8).build();
    assert_eq!(opts.concurrent(), 8);
}

#[test]
fn options_concurrent_clamped() {
    let opts = TransferOptions::builder().concurrent(0).build();
    assert_eq!(opts.concurrent(), 1);

    let opts = TransferOptions::builder().concurrent(999).build();
    assert_eq!(opts.concurrent(), 64);
}

fn result(index: usize, bytes: u64) -> TaskResult {
    TaskResult { index, bytes_transferred: bytes, transferred: true, error: None }
}

#[test]
fn results_come_out_in_list_order() {
    let mut run = TaskRun::new(4, 8);
    let started: Vec<usize> = std::iter::from_fn(|| run.start()).collect();
    assert_eq!(started, vec![0, 1, 2, 3]);
    assert!(run.finish(3, Some(result(3, 30))));
    assert!(run.finish(0, Some(result(0, 10))));
    assert!(run.finish(2, None));
    assert!(!run.is_over());
    assert!(run.finish(1, Some(result(1, 20))));
    assert!(run.is_over());
    assert!(!run.finish(1, Some(result(1, 99))));
    let ordered = run.into_results();
    let bytes: Vec<u64> = ordered.iter().map(|r| r.bytes_transferred).collect();
    assert_eq!(bytes, vec![10, 20, 0, 30]);
    assert_eq!(ordered[2].index, 2);
    assert!(!ordered[2].transferred);
    assert_eq!(ordered[2].error.as_deref(), Some("task result missing"));
    assert!(TaskRun::new(0, 4).into_results().is_empty());
}

#[test]
fn no_more_tasks_run_than_may() {
    for (wanted, limit) in [(0, 1), (1, 1), (3, 3), (64, 64), (1000, 64)] {
        let mut run = TaskRun::new(100, wanted);
        let mut running: Vec<usize> = std::iter::from_fn(|| run.start()).collect();
        assert_eq!(running.len(), limit);
        assert!(!run.finish(limit, Some(result(limit, 1))));
        let mut count = running.len();
        while let Some(at) = running.pop() {
            assert!(run.finish(at, Some(result(at, at as u64))));
            if let Some(next) = run.start() {
                running.push(next);
                count += 1;
            }
            assert!(running.len() <= limit);
        }
        assert_eq!(count, 100);
        assert!(run.is_over());
        let bytes: Vec<u64> = run.into_results().iter().map(|r| r.bytes_transferred).collect();
        assert_eq!(bytes, (0..100).collect::<Vec<u64>>());
    }
}

#[test]
fn test_progress_tracker_no_callback() {
    let mut tracker = ProgressTracker::new();
    tracker.set_totals(10, 1000);
    tracker.emit(ProgressEvent::FileStart {
        index: 0,
        name: b"test.txt".to_vec(),
        size: 100,
    });
    tracker.emit(ProgressEvent::FileComplete {
        index: 0,
        name: b"test.txt".to_vec(),
        literal_bytes: 50,
        matched_bytes: 50,
    });
    assert_eq!(tracker.files_done(), 1);
    assert!(tracker.take_events().is_empty());
}

#[test]
fn test_progress_callback() {
    let mut tracker = ProgressTracker::with_callback();

    tracker.emit(ProgressEvent::FileStart {
        index: 0,
        name: b"a.txt".to_vec(),
        size: 10,
    });
    tracker.emit(ProgressEvent::FileComplete {
        index: 0,
        name: b"a.txt".to_vec(),
        literal_bytes: 10,
        matched_bytes: 0,
    });

    let captured: Vec<String> = tracker
        .take_events()
        .iter()
        .map(|event| match event {
            ProgressEvent::FileStart { name, .. } => {
                format!("start:{}", String::from_utf8_lossy(name))
            }
            ProgressEvent::FileComplete { name, .. } => {
                format!("complete:{}", String::from_utf8_lossy(name))
            }
            _ => "other".to_string(),
        })
        .collect();
    assert_eq!(captured.len(), 2);
    assert_eq!(captured[0], "start:a.txt");
    assert_eq!(captured[1], "complete:a.txt");
}

#[test]
fn test_overall_progress() {
    let mut tracker = ProgressTracker::with_callback();

    tracker.set_totals(5, 5000);
    tracker.emit_overall();

    let events = tracker.take_events();
    assert_eq!(events.len(), 1);
    match &events[0] {
        ProgressEvent::OverallProgress { files_done, files_total, bytes_transferred, bytes_total } => {
            assert_eq!(*files_done, 0);
            assert_eq!(*files_total, 5);
            assert_eq!(*bytes_transferred, 0);
            assert_eq!(*bytes_total, 5000);
        }
        _ => panic!("expected overall progress"),
    }
    assert!(tracker.take_events().is_empty());
}

#[test]
fn test_ignore_times_never_skips() {
    let entry = make_entry("file.txt", 5, 1_700_000_000);
    let dest = meta(5, 1_700_000_000);
    let opts = TransferOptions::builder().ignore_times(true).build();
    assert!(!quick_check_skip(Some(&dest), &entry, &opts));
    let opts = TransferOptions::default();
    assert!(quick_check_skip(Some(&dest), &entry, &opts));
}

#[test]
fn test_size_only_skips_matching_size() {
    let entry = make_entry("file.txt", 5, 1_700_000_000);
    let dest = meta(5, 1_600_000_000);
    let opts = TransferOptions::builder().size_only(true).build();
    assert!(quick_check_skip(Some(&dest), &entry, &opts));
    let opts = TransferOptions::default();
    assert!(!quick_check_skip(Some(&dest), &entry, &opts));
}

#[test]
fn test_existing_skips_when_dest_missing() {
    let opts = TransferOptions::builder().existing(true).build();
    assert!(check_existence_skip(false, &opts));
}

#[test]
fn test_existing_allows_when_dest_present() {
    let opts = TransferOptions::builder().existing(true).build();
    assert!(!check_existence_skip(true, &opts));
}

#[test]
fn test_ignore_existing_skips_when_dest_present() {
    let opts = TransferOptions::builder().ignore_existing(true).build();
    assert!(check_existence_skip(true, &opts));
}

#[test]
fn test_ignore_existing_allows_when_dest_missing() {
    let opts = TransferOptions::builder().ignore_existing(true).build();
    assert!(!check_existence_skip(false, &opts));
}

#[test]
fn modify_window_and_update_decide() {
    let entry = make_entry("f", 5, 100);
    let opts = TransferOptions::builder().modify_window(2).build();
    assert!(quick_check_skip(Some(&meta(5, 102)), &entry, &opts));
    assert!(!quick_check_skip(Some(&meta(5, 103)), &entry, &opts));
    let opts = TransferOptions::builder().update(true).build();
    assert!(quick_check_skip(Some(&meta(9, 101)), &entry, &opts));
    assert!(!quick_check_skip(Some(&meta(9, 99)), &entry, &opts));
    assert!(!quick_check_skip(None, &entry, &opts));
}

#[test]
fn size_limits_decide() {
    let opts = TransferOptions::builder().max_size(10).min_size(3).build();
    assert!(check_size_limits(&make_entry("f", 11, 0), &opts));
    assert!(!check_size_limits(&make_entry("f", 10, 0), &opts));
    assert!(!check_size_limits(&make_entry("f", 3, 0), &opts));
    assert!(check_size_limits(&make_entry("f", 2, 0), &opts));
}

#[test]
fn alternate_directories_are_tried_in_order() {
    let entry = make_entry("d/f", 5, 100);
    let opts = TransferOptions::default();
    let dirs = vec![b"/a".to_vec(), b"/b".to_vec(), b"/c".to_vec()];
    let metas = vec![None, Some(meta(5, 100)), Some(meta(5, 100))];
    assert_eq!(check_alt_dest(&entry, &dirs, &metas, &opts), Some(b"/b/d/f".to_vec()));
    let metas = vec![None, Some(meta(6, 100)), Some(meta(5, 101))];
    assert_eq!(check_alt_dest(&entry, &dirs, &metas, &opts), None);
    assert_eq!(
        resolve_link_dest_dirs(&[b"x".to_vec(), b"/y".to_vec()], b"/dst"),
        vec![b"/dst/x".to_vec(), b"/y".to_vec()]
    );
}

#[test]
fn links_out_of_the_tree_are_unsafe() {
    assert!(is_unsafe_symlink(b"/etc/passwd"));
    assert!(is_unsafe_symlink(b"../x"));
    assert!(is_unsafe_symlink(b"a/../../x"));
    assert!(!is_unsafe_symlink(b"a/../x"));
    assert!(!is_unsafe_symlink(b"a/./b"));
    assert!(!is_unsafe_symlink(b"..x"));
}

#[test]
fn backups_keep_the_name() {
    let steps = create_backup(b"/d/f.txt", "~", None);
    assert_eq!(steps.len(), 1);
    assert!(steps[0].required);
    match &steps[0].action {
        FsAction::Rename { from, to } => {
            assert_eq!(from, b"/d/f.txt");
            assert_eq!(to, b"/d/f.txt~");
        }
        _ => panic!("expected a rename"),
    }
    let steps = create_backup(b"/d/f.txt", ".bak", Some(b"/old"));
    assert_eq!(steps.len(), 2);
    match (&steps[0].action, &steps[1].action) {
        (FsAction::MakeDir { path, mode }, FsAction::Rename { to, .. }) => {
            assert_eq!(path, b"/old");
            assert_eq!(*mode, 0o755);
            assert_eq!(to, b"/old/f.txt.bak");
        }
        _ => panic!("expected a directory and a rename"),
    }
    // A name that is not text is replaced.
    let steps = create_backup(b"/d/\xff", "~", None);
    match &steps[0].action {
        FsAction::Rename { to, .. } => assert_eq!(to, "/d/\u{fffd}~".as_bytes()),
        _ => panic!("expected a rename"),
    }
}

#[test]
fn data_is_written_as_asked() {
    let entry = make_entry("f", 5, 100);
    let method = |opts: &TransferOptions, len: usize| {
        match write_file_with_options(b"/d/f", len, &entry, opts, None) {
            FsAction::Write { method, .. } => method,
            _ => panic!("expected a write"),
        }
    };
    let plain = TransferOptions::default();
    assert_eq!(method(&plain, 10), WriteMethod::Whole);
    assert_eq!(method(&plain, 67_108_864), WriteMethod::Streaming);
    let sparse = TransferOptions::builder().sparse(true).inplace(true).build();
    assert_eq!(method(&sparse, 10), WriteMethod::Sparse);
    let inplace = TransferOptions::builder().inplace(true).build();
    assert_eq!(method(&inplace, 10), WriteMethod::InPlace);
    let owned = TransferOptions::builder().preserve_times(true).chown_uid(7).build();
    let steps = set_file_metadata(b"/d/f", &entry, &owned);
    assert_eq!(steps.len(), 2);
    match &steps[1].action {
        FsAction::SetOwner { uid, gid, .. } => {
            assert_eq!(*uid, 7);
            assert_eq!(*gid, 0);
        }
        _ => panic!("expected an owner"),
    }
}

#[test]
fn changes_are_itemized() {
    let entry = make_entry("f", 5, 100);
    let opts = TransferOptions::default();
    let c = compute_itemized(&entry, None, &opts);
    assert_eq!(c.update_type, 'c');
    assert_eq!(c.file_type, 'f');
    let c = compute_itemized(&entry, Some(&meta(5, 100)), &opts);
    assert_eq!(c.update_type, '.');
    let c = compute_itemized(&entry, Some(&meta(6, 100)), &opts);
    assert_eq!(c.update_type, '>');
    assert!(c.size_changed);
    assert!(!c.time_changed);
}

#[test]
fn test_not_found_error() {
    let e = UnixFileSystem::map_io_err(
        b"/nonexistent/path/file.txt",
        IoFailure::new(IoErrorKind::NotFound, "no such file"),
    );
    assert!(matches!(e, FsError::NotFound { .. }));
    let e = UnixFileSystem::map_io_err(
        b"/f",
        IoFailure::new(IoErrorKind::PermissionDenied, "no"),
    );
    assert!(matches!(e, FsError::PermissionDenied { .. }));
    let e = UnixFileSystem::map_io_err(b"/f", IoFailure::new(IoErrorKind::Other, "odd"));
    assert!(matches!(e, FsError::Io { .. }));
}

fn overall_bytes(tracker: &mut ProgressTracker) -> u64 {
    tracker.emit_overall();
    match tracker.take_events().last() {
        Some(ProgressEvent::OverallProgress { bytes_transferred, .. }) => *bytes_transferred,
        _ => panic!("expected overall progress"),
    }
}

#[test]
fn overall_progress_counts_every_file() {
    let progress = |index: i32, bytes_transferred: u64, total_size: i64| {
        ProgressEvent::FileProgress { index, bytes_transferred, total_size }
    };
    let mut tracker = ProgressTracker::with_callback();
    assert_eq!(overall_bytes(&mut tracker), 0);
    tracker.emit(progress(0, 40, 100));
    assert_eq!(overall_bytes(&mut tracker), 40);
    tracker.emit(progress(0, 100, 100));
    assert_eq!(overall_bytes(&mut tracker), 100);
    tracker.emit_all(vec![progress(1, 20, 50), progress(1, 50, 50)]);
    assert_eq!(overall_bytes(&mut tracker), 150);

    let mut tracker = ProgressTracker::with_callback();
    tracker.emit(progress(0, 100, 100));
    tracker.emit(progress(1, 50, 50));
    tracker.emit_overall();
    match tracker.take_events().pop() {
        Some(ProgressEvent::OverallProgress {
            files_done,
            files_total,
            bytes_transferred,
            bytes_total,
        }) => {
            assert_eq!((files_done, files_total, bytes_transferred, bytes_total), (0, 0, 150, 0));
        }
        _ => panic!("expected overall progress"),
    }
}
