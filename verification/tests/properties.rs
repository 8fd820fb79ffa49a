//! What holds of the library as a whole, on chosen values.

use ferrosync_core::engine::checkpoint::{Checkpoint, CheckpointFile};
use ferrosync_core::engine::delete::{
    delete_extraneous, delete_extraneous_in_dir, limit_deletions, prune_empty_dirs, DirTree,
};
use ferrosync_core::engine::fuzzy::{
    closest_name, longest_common_subsequence_len, next_exact_match,
};
use ferrosync_core::engine::progress::ProgressTracker;
use ferrosync_core::engine::receiver_engine::{
    count_links, Attempts, DestProbe, EntryAction, HandledKind, ReceiverEngine,
};
use ferrosync_core::engine::session::{
    check_names, collect_filter_list, count_files, make_links, sanitize_path, session_course,
    SessionStage, SyncDirection, SyncSession,
};
use ferrosync_core::error::FsError;
use ferrosync_core::filelist::codec::hlink::{HardLinkAction, HardLinkDecoder, HardLinkEncoder};
use ferrosync_core::filelist::codec::FileListOptions;
use ferrosync_core::filelist::entry::{
    civil_from_days, compute_entry_name, format_mtime, FileEntry, HardLinkInfo, S_IFDIR, S_IFREG,
    WIRE_S_IFLNK,
};
use ferrosync_core::filelist::idlist::{recv_id_list, send_id_list};
use ferrosync_core::filelist::incremental::{IncrementalReceiver, IncrementalSender};
use ferrosync_core::filelist::sort::canonical_sort;
use ferrosync_core::filter::FilterRuleList;
use ferrosync_core::fs::fake_super::FakeSuperFs;
use ferrosync_core::fs::plan::FsAction;
use ferrosync_core::fs::sparse::{is_read_only, map_choice, sparse_pieces, MapChoice};
use ferrosync_core::fs::windows::WindowsFileSystem;
use ferrosync_core::fs::{DirEntry, FileMetadata};
use ferrosync_core::options::{DeleteMode, TransferConfig, TransferOptions};
use ferrosync_core::path::{join_path, path_parent, path_with_name};
use ferrosync_core::protocol::wire::WireReader;
use ferrosync_core::stats::TransferStats;

fn entry(name: &str, mode: u32) -> FileEntry {
    FileEntry { name: name.as_bytes().to_vec(), mode, len: 5, mtime: 100, ..Default::default() }
}

fn meta(mode: u32, len: i64, mtime: i64) -> FileMetadata {
    FileMetadata {
        len,
        mtime,
        mtime_nsec: 0,
        mode,
        uid: 0,
        gid: 0,
        rdev: 0,
        dev: 1,
        ino: 1,
        nlink: 1,
    }
}

fn found(name: &str, mode: u32) -> DirEntry {
    DirEntry { name: name.as_bytes().to_vec(), metadata: meta(mode, 5, 100) }
}

fn nothing() -> DestProbe {
    DestProbe {
        dest: None,
        followed: None,
        compare: Vec::new(),
        link: Vec::new(),
        copy: Vec::new(),
    }
}

fn untried() -> Attempts {
    Attempts { link: None, copy: None }
}

// Names

#[test]
fn refused_names_are_reported() {
    assert_eq!(sanitize_path(b"/d", b"a/b").unwrap(), b"/d/a/b");
    assert_eq!(sanitize_path(b"/d", b"a/..b").unwrap(), b"/d/a/..b");
    for bad in [&b"/etc/passwd"[..], b"..", b"a/../b", b"a/.."] {
        match sanitize_path(b"/d", bad) {
            Err(FsError::PermissionDenied { path }) => assert_eq!(path, bad),
            _ => panic!("expected a refusal"),
        }
    }
    assert!(check_names(b"/d", &[entry("a", S_IFREG), entry("b/c", S_IFREG)]).is_ok());
    assert!(check_names(b"/d", &[entry("a", S_IFREG), entry("../c", S_IFREG)]).is_err());
}

#[test]
fn paths_join() {
    assert_eq!(join_path(b"/a", b"b"), b"/a/b");
    assert_eq!(join_path(b"/a/", b"b"), b"/a/b");
    assert_eq!(join_path(b"/a", b"/b"), b"/b");
    assert_eq!(path_parent(b"/a/b"), Some(b"/a".to_vec()));
    assert_eq!(path_with_name(b"/a/b", b"c"), b"/a/c");
    assert_eq!(compute_entry_name(b"/src/dir/file.txt", false), b"file.txt");
    assert_eq!(compute_entry_name(b"/src/dir/file.txt", true), b"src/dir/file.txt");
}

#[test]
fn days_have_dates() {
    let d = civil_from_days(0);
    assert_eq!((d.year, d.month, d.day), (1970, 1, 1));
    let d = civil_from_days(19782);
    assert_eq!((d.year, d.month, d.day), (2024, 2, 29));
    let d = civil_from_days(-1);
    assert_eq!((d.year, d.month, d.day), (1969, 12, 31));
    assert_eq!(format_mtime(0), "1970/01/01 00:00:00");
}

// Lists

#[test]
fn files_come_before_directories() {
    let mut list = vec![
        entry("sub/b", S_IFREG),
        entry("zeta", S_IFREG),
        entry("sub", S_IFDIR),
        entry("alpha", S_IFREG),
    ];
    canonical_sort(&mut list);
    let names: Vec<&[u8]> = list.iter().map(|e| e.name.as_slice()).collect();
    assert_eq!(names, vec![&b"alpha"[..], b"zeta", b"sub", b"sub/b"]);
}

#[test]
fn id_lists_are_read_past() {
    let opts = FileListOptions {
        protocol_version: 31,
        preserve_uid: true,
        preserve_gid: true,
        ..Default::default()
    };
    let mut e = entry("a", S_IFREG);
    e.uid = 1000;
    e.user_name = b"someone".to_vec();
    e.gid = 50;
    e.group_name = b"staff".to_vec();
    let mut w = Vec::new();
    send_id_list(&mut w, &[e], &opts);
    assert!(w.windows(7).any(|s| s == b"someone"));
    w.push(0x55);
    let mut r = WireReader::new(&w);
    recv_id_list(&mut r, &opts).unwrap();
    assert_eq!(r.remaining(), 1);
    assert!(recv_id_list(&mut WireReader::new(&w[..3]), &opts).is_err());
    // Neither list is there where neither kind of id is kept.
    let mut w = Vec::new();
    send_id_list(&mut w, &[], &FileListOptions { protocol_version: 31, ..Default::default() });
    assert!(w.is_empty());
}

#[test]
fn sub_lists_are_read_back() {
    let opts = FileListOptions { protocol_version: 31, ..Default::default() };
    let list = vec![entry("d/a", S_IFREG), entry("d/b", S_IFREG)];
    let mut s = IncrementalSender::default();
    let mut w = Vec::new();
    s.send_sub_flist(&mut w, 3, &list, &opts);
    s.write_flist_eof(&mut w, 31);
    let mut r = WireReader::new(&w);
    let mut got = IncrementalReceiver::new(true);
    let marker = got.read_ndx_marker(&mut r, 31).unwrap();
    assert_eq!(marker, -101 - 3);
    let sub = got.recv_sub_flist(&mut r, 3, &opts).unwrap();
    assert_eq!(sub.entries.len(), 2);
    assert_eq!(sub.entries[1].name, b"d/b");
    assert_eq!(got.read_ndx_marker(&mut r, 31).unwrap(), -2);
    assert_eq!(r.remaining(), 0);
}

#[test]
fn hard_links_share_the_first_index() {
    let mut enc = HardLinkEncoder::new();
    let info = HardLinkInfo { dev: 1, ino: 7, nlink: 2 };
    let other = HardLinkInfo { dev: 2, ino: 7, nlink: 2 };
    assert!(matches!(enc.check(&info, 0), HardLinkAction::FirstOccurrence));
    assert!(matches!(enc.check(&other, 1), HardLinkAction::FirstOccurrence));
    match enc.check(&info, 2) {
        HardLinkAction::DuplicateOf(first) => assert_eq!(first, 0),
        _ => panic!("expected a duplicate"),
    }
    let mut dec = HardLinkDecoder::new();
    dec.record_duplicate(2, 0);
    assert_eq!(dec.first_index(2), Some(0));
    assert_eq!(dec.first_index(1), None);
    assert_eq!(dec.duplicates(), vec![(2, 0)]);
}

// Filters

#[test]
fn the_first_rule_that_matches_decides() {
    let mut f = FilterRuleList::new();
    assert!(f.is_included(b"anything", false));
    f.add_include("keep.tmp").unwrap();
    f.add_exclude("*.tmp").unwrap();
    assert!(f.is_included(b"keep.tmp", false));
    assert!(!f.is_included(b"other.tmp", false));
    assert!(f.is_included(b"plain", false));
    let before = f.len();
    f.push_scope();
    f.add_exclude("plain").unwrap();
    assert!(!f.is_included(b"plain", false));
    f.pop_scope();
    assert_eq!(f.len(), before);
    assert!(f.is_included(b"plain", false));
}

#[test]
fn filters_are_collected_for_the_wire() {
    let none = TransferOptions::builder().build();
    let empty = collect_filter_list(&none);
    assert_eq!(empty, vec![0, 0, 0, 0]);
    let some = TransferOptions::builder().exclude("*.o").build();
    let bytes = collect_filter_list(&some);
    assert!(bytes.windows(3).any(|s| s == b"*.o"));
    assert_eq!(bytes[bytes.len() - 4..], [0, 0, 0, 0]);
}

// The destination

#[test]
fn listed_names_are_kept() {
    let listing = vec![found("keep", S_IFREG), found("gone", S_IFREG), found("old", S_IFDIR)];
    let filters = FilterRuleList::new();
    let (steps, n) = delete_extraneous(
        b"/d",
        Some(&listing),
        &[entry("keep", S_IFREG)],
        &filters,
        false,
        false,
    );
    assert_eq!(n, 2);
    assert!(matches!(&steps[0].action, FsAction::RemoveFile { path } if path == b"/d/gone"));
    assert!(matches!(&steps[1].action, FsAction::RemoveDir { path } if path == b"/d/old"));
    let (steps, n) = delete_extraneous(
        b"/d",
        Some(&listing),
        &[entry("keep", S_IFREG)],
        &filters,
        true,
        false,
    );
    assert!(steps.is_empty());
    assert_eq!(n, 2);
    let (steps, n) = delete_extraneous_in_dir(
        b"/d/s",
        Some(&[found("a", S_IFREG), found("b", S_IFREG)]),
        &[entry("s/a", S_IFREG)],
        b"s",
        &filters,
        false,
        false,
    );
    assert_eq!(n, 1);
    assert!(matches!(&steps[0].action, FsAction::RemoveFile { path } if path == b"/d/s/b"));
}

#[test]
fn excluded_files_are_kept() {
    let mut filters = FilterRuleList::new();
    filters.add_exclude("*.bak").unwrap();
    let listing = vec![found("x.bak", S_IFREG)];
    let (_, n) = delete_extraneous(b"/d", Some(&listing), &[], &filters, false, false);
    assert_eq!(n, 0);
    let (_, n) = delete_extraneous(b"/d", Some(&listing), &[], &filters, false, true);
    assert_eq!(n, 1);
    let (_, n) = delete_extraneous(b"/d", None, &[], &filters, false, true);
    assert_eq!(n, 0);
}

#[test]
fn entries_are_dispatched() {
    let engine = ReceiverEngine::new(b"/d".to_vec(), TransferConfig::default());
    assert_eq!(engine.dest(), b"/d");
    assert_eq!(engine.dest_path(&entry("a", S_IFREG)), b"/d/a");
    let action = engine.dispatch_entry(&entry("s", S_IFDIR | 0o755), &nothing(), untried(), None);
    assert!(matches!(action, EntryAction::Handled { kind: HandledKind::Directory, .. }));
    let action = engine.dispatch_entry(&entry("a", S_IFREG), &nothing(), untried(), None);
    assert!(matches!(action, EntryAction::NeedsTransfer { .. }));
    let there = DestProbe { dest: Some(meta(S_IFREG, 5, 100)), ..nothing() };
    let there = DestProbe { followed: there.dest, ..there };
    let action = engine.dispatch_entry(&entry("a", S_IFREG), &there, untried(), None);
    assert!(matches!(action, EntryAction::Skipped));
}

#[test]
fn a_link_is_tried_once() {
    let config = TransferConfig::builder().link_dest(b"/alt".to_vec()).build();
    let engine = ReceiverEngine::new(b"/d".to_vec(), config);
    let probe = DestProbe { link: vec![Some(meta(S_IFREG, 5, 100))], ..nothing() };
    let e = entry("a", S_IFREG);
    let action = engine.dispatch_entry(&e, &probe, untried(), None);
    match action {
        EntryAction::TryLink { steps } => {
            assert!(steps.iter().any(|s| matches!(
                &s.action,
                FsAction::HardLink { from, to } if from == b"/alt/a" && to == b"/d/a"
            )));
        }
        _ => panic!("expected a link to be tried"),
    }
    let done = Attempts { link: Some(true), copy: None };
    let action = engine.dispatch_entry(&e, &probe, done, None);
    assert!(matches!(action, EntryAction::Handled { kind: HandledKind::LinkDest, .. }));
    let failed = Attempts { link: Some(false), copy: None };
    let action = engine.dispatch_entry(&e, &probe, failed, None);
    assert!(matches!(action, EntryAction::NeedsTransfer { .. }));
}

#[test]
fn links_are_made_from_entries() {
    let opts = TransferOptions::builder().preserve_links(true).build();
    let mut l = entry("l", WIRE_S_IFLNK | 0o777);
    l.link_target = b"t".to_vec();
    let made = format!("{:?}", make_links(&[l, entry("a", S_IFREG)], b"/d", &opts));
    assert!(made.contains("SymLink"));
}

#[test]
fn close_names_are_found() {
    assert_eq!(longest_common_subsequence_len(b"abcdef", b"abXdeYf"), 5);
    assert_eq!(longest_common_subsequence_len(b"", b"abc"), 0);
    assert_eq!(longest_common_subsequence_len(b"same", b"same"), 4);
    let listing =
        vec![found("zzz", S_IFREG), found("file-1.1.txt", S_IFREG), found("file-2", S_IFREG)];
    assert_eq!(closest_name(b"file-1.2.txt", &listing), Some(1));
    assert_eq!(closest_name(b"QQQQ", &listing), None);
    assert_eq!(next_exact_match(&entry("other", S_IFREG), &listing, 0), Some(0));
}

// Sessions

#[test]
fn sessions_take_their_course() {
    let opts = TransferOptions::builder().build();
    let push = session_course(SyncDirection::Push, &opts);
    let pull = session_course(SyncDirection::Pull, &opts);
    assert!(push.contains(&SessionStage::SendFiles));
    assert!(!push.contains(&SessionStage::ReceiveList));
    assert!(pull.contains(&SessionStage::ReceiveList));
    assert!(!pull.contains(&SessionStage::Delete));
    let cleaning = TransferOptions::builder().delete(DeleteMode::Before).build();
    assert!(session_course(SyncDirection::Pull, &cleaning).contains(&SessionStage::Delete));
    let s = SyncSession::new(7u8, opts, SyncDirection::Pull).with_progress(ProgressTracker::new());
    let parts = s.into_parts();
    assert_eq!(parts.transport, 7);
    assert_eq!(parts.direction, SyncDirection::Pull);
}

#[test]
fn a_dry_pull_counts_files() {
    let mut stats = TransferStats::new();
    let mut progress = ProgressTracker::with_callback();
    count_files(&[entry("a", S_IFREG), entry("d", S_IFDIR)], &mut stats, &mut progress);
    assert_eq!(stats.files_transferred, 1);
    assert_eq!(stats.total_size, 5);
}

// Stored values

#[test]
fn checkpoints_are_read_back() {
    let mut c = Checkpoint::new(b"/x/file".to_vec(), 10_000, 1024, 42, 1_700_000_000);
    assert_eq!(c.total_blocks(), 10);
    {
        let mut s = c.resume_state();
        s.mark_block_done(0);
        s.mark_block_done(9);
        assert_eq!(s.blocks_remaining(), 8);
        assert!(!s.all_done());
        assert!(s.is_block_done(9));
        assert!(!s.is_block_done(8));
    }
    let bytes = CheckpointFile::serialize(&c);
    let mut back = CheckpointFile::deserialize(&bytes).unwrap();
    assert_eq!(back.file_path, c.file_path);
    assert_eq!(back.file_size, 10_000);
    assert_eq!(back.resume_state().blocks_remaining(), 8);
    assert!(CheckpointFile::deserialize(&bytes[..bytes.len() - 1]).is_err());
    assert!(CheckpointFile::deserialize(b"no checkpoint at all").is_err());
}

#[test]
fn attributes_stand_for_owners() {
    let stat = FakeSuperFs::format_stat(0o100644, 5, 6, 0x0801);
    assert_eq!(stat, b"100644 5:6 8:1");
    assert_eq!(FakeSuperFs::parse_stat(&stat), Some((0o100644, 5, 6, 0x0801)));
    let m = FakeSuperFs::overlay_metadata(meta(S_IFREG | 0o600, 1, 1), Some(&stat));
    assert_eq!((m.mode, m.uid, m.gid), (0o100644, 5, 6));
    let m = FakeSuperFs::overlay_metadata(meta(S_IFREG | 0o600, 1, 1), None);
    assert_eq!(m.mode, S_IFREG | 0o600);
    assert!(!FakeSuperFs::shows_attr(b"user.rsync.%stat"));
    assert!(FakeSuperFs::shows_attr(b"user.colour"));
}

#[test]
fn holes_keep_the_data() {
    let mut data = vec![0u8; 4096];
    data.extend_from_slice(&[1u8; 10]);
    let pieces = sparse_pieces(&data);
    assert_eq!(pieces.len(), 2);
    assert!(pieces[0].hole && !pieces[1].hole);
    assert_eq!((pieces[1].start, pieces[1].end), (4096, 4106));
    assert!(sparse_pieces(&[]).is_empty());
    assert_eq!(map_choice(0), MapChoice::Empty);
    assert_eq!(map_choice(10), MapChoice::Read);
    assert_eq!(map_choice(i64::MAX), MapChoice::Mapped);
    assert!(is_read_only(0o444));
    assert!(!is_read_only(0o644));
}

#[test]
fn windows_times_convert() {
    assert_eq!(WindowsFileSystem::filetime_to_unix(116_444_736_000_000_000), (0, 0));
    assert_eq!(
        WindowsFileSystem::filetime_to_unix(116_444_736_000_000_000 + 15_000_000),
        (1, 500_000_000)
    );
}

#[test]
fn files_are_streamed_into_place() {
    let config = TransferConfig::builder()
        .backup(true)
        .preserve_times(true)
        .partial_dir(b"/p".to_vec())
        .build();
    let engine = ReceiverEngine::new(b"/d".to_vec(), config);
    assert!(!engine.needs_buffered_receive());
    let e = entry("s/a", S_IFREG);
    let opened = format!("{:?}", engine.create_writer(&e, true, true, None));
    assert!(opened.contains("Rename") && opened.contains("MakeDir"));
    assert!(opened.contains("Streaming"));
    let done = engine.finish_file(&e, None);
    assert!(matches!(
        &done[0].action,
        FsAction::Rename { from, to } if from == b"/p/a" && to == b"/d/s/a"
    ));
    assert!(matches!(&done[1].action, FsAction::SetTimes { mtime: 100, .. }));
    let config = TransferConfig::builder().append(true).build();
    let engine = ReceiverEngine::new(b"/d".to_vec(), config);
    let opened = engine.create_writer(&e, true, false, None);
    assert!(matches!(&opened[0].action, FsAction::MakeDir { path, .. } if path == b"/d/s"));
    assert_eq!(opened.len(), 2);
    let sparse = TransferConfig::builder().sparse(true).build();
    assert!(ReceiverEngine::new(b"/d".to_vec(), sparse).needs_buffered_receive());
}

#[test]
fn device_numbers_split() {
    let mut e = entry("dev", S_IFREG);
    e.rdev = (8 << 8) | 1;
    assert_eq!((e.rdev_major(), e.rdev_minor()), (8, 1));
}

#[test]
fn rules_and_patterns_are_collected() {
    let opts = TransferOptions::builder().include_pattern("*.rs").exclude("*").build();
    assert_eq!(opts.include_patterns(), ["*.rs"]);
    let f = FilterRuleList::from_options(opts.exclude(), opts.include_patterns(), opts.filter())
        .unwrap();
    assert!(f.is_included(b"main.rs", false));
    assert!(!f.is_included(b"main.c", false));
    let mut g = FilterRuleList::new();
    g.add_rule("- *.log").unwrap();
    assert!(!g.is_included(b"x.log", false));
    assert!(g.add_rule("bad rule").is_err());
}

#[test]
fn deferred_links_are_planned_and_counted() {
    let entries = vec![FileEntry { name: b"a".to_vec(), ..Default::default() }];
    let deferred = vec![(b"b".to_vec(), b"a".to_vec()), (b"c".to_vec(), b"none".to_vec())];
    let engine = ReceiverEngine::new(b"/d".to_vec(), TransferConfig::default());
    let links = engine.create_deferred_hardlinks(&deferred, &entries);
    assert_eq!(links.len(), 1);
    let steps = engine.deferred_link_steps(&links[0]);
    assert_eq!(steps.len(), 2);
    assert!(!steps[0].required && steps[1].required);
    assert!(matches!(&steps[0].action, FsAction::RemoveFile { path } if path == b"/d/b"));
    assert!(matches!(
        &steps[1].action,
        FsAction::HardLink { from, to } if from == b"/d/a" && to == b"/d/b"
    ));
    let config = TransferOptions::builder().dry_run(true).build();
    let engine = ReceiverEngine::new(b"/d".to_vec(), config);
    let links = engine.create_deferred_hardlinks(&deferred, &entries);
    assert!(engine.deferred_link_steps(&links[0]).is_empty());
    assert_eq!(count_links(&[true, false, true]), 2);
    assert_eq!(count_links(&[]), 0);
}

fn tree(name: &str, children: Vec<DirTree>) -> DirTree {
    DirTree { name: name.as_bytes().to_vec(), is_dir: true, children }
}

#[test]
fn empty_directories_are_pruned_from_below() {
    let leaf = DirTree { name: b"f".to_vec(), is_dir: false, children: Vec::new() };
    let top = tree(
        "",
        vec![
            tree("a", vec![tree("b", Vec::new())]),
            tree("c", vec![leaf, tree("d", Vec::new())]),
        ],
    );
    let (steps, n) = prune_empty_dirs(&top, b"/t", false);
    let gone: Vec<&[u8]> = steps
        .iter()
        .map(|s| match &s.action {
            FsAction::RemoveDir { path } => path.as_slice(),
            _ => panic!("expected a removal"),
        })
        .collect();
    assert_eq!(gone, vec![b"/t/a/b".as_slice(), b"/t/a", b"/t/c/d"]);
    assert_eq!(n, 3);
    let (steps, n) = prune_empty_dirs(&top, b"/t", true);
    assert_eq!((steps.len(), n), (0, 3));

    let (steps, n) = prune_empty_dirs(&top, b"/t", false);
    let (steps, n) = limit_deletions(steps, n, Some(2));
    assert_eq!((steps.len(), n), (2, 2));
    let (steps, n) = limit_deletions(steps, n, None);
    assert_eq!((steps.len(), n), (2, 2));
    let (steps, n) = limit_deletions(Vec::new(), 7, Some(5));
    assert_eq!((steps.len(), n), (0, 5));
}

#[test]
fn metadata_is_empty_by_default() {
    let m = FileMetadata::default();
    assert_eq!((m.len, m.mtime, m.mode, m.ino, m.nlink), (0, 0, 0, 0, 0));
}
