//! Whole transfers over a file system that is kept in memory.

use std::collections::BTreeMap;

use ferrosync_core::engine::progress::{ProgressEvent, ProgressTracker};
use ferrosync_core::engine::receiver_engine::{Attempts, ReceiverEngine};
use ferrosync_core::engine::transfer::{
    build_file_list, timed_out, LocalAction, LocalProbe, LocalTransfer, Stage, StreamingTransfer,
    TransferResult,
};
use ferrosync_core::error::{FerrosyncError, FsError};
use ferrosync_core::filelist::entry::{FileEntry, S_IFDIR, S_IFREG};
use ferrosync_core::filelist::scanner::{build_file_list_from_file, files_from_names, Source};
use ferrosync_core::filelist::walk::Node;
use ferrosync_core::filter::FilterRuleList;
use ferrosync_core::fs::plan::{FsAction, Step, WriteMethod};
use ferrosync_core::fs::sparse::sparse_pieces;
use ferrosync_core::fs::{DirEntry, FileMetadata};
use ferrosync_core::options::{DeleteMode, TransferOptions};

#[derive(Clone)]
struct Item {
    mode: u32,
    mtime: i64,
    ino: u64,
    data: Vec<u8>,
}

struct Memory {
    items: BTreeMap<Vec<u8>, Item>,
    next_ino: u64,
}

impl Memory {
    fn new(dirs: &[&str]) -> Memory {
        let mut m = Memory { items: BTreeMap::new(), next_ino: 10 };
        for d in dirs {
            m.make_dir(d.as_bytes(), 0o755);
        }
        m
    }

    fn put(&mut self, path: &[u8], mode: u32, mtime: i64, data: &[u8]) {
        let ino = self.next_ino;
        self.next_ino += 1;
        let item = Item { mode, mtime, ino, data: data.to_vec() };
        self.items.insert(path.to_vec(), item);
    }

    fn make_dir(&mut self, path: &[u8], mode: u32) {
        let path = plain(path);
        if !self.items.contains_key(&path) {
            self.put(&path, S_IFDIR | mode, 1, b"");
        }
    }

    fn write(&mut self, path: &str, data: &str, mtime: i64) {
        self.put(path.as_bytes(), S_IFREG | 0o644, mtime, data.as_bytes());
    }

    fn has(&self, path: &str) -> bool {
        self.items.contains_key(path.as_bytes())
    }

    fn read(&self, path: &str) -> Vec<u8> {
        self.items[path.as_bytes()].data.clone()
    }

    fn ino(&self, path: &str) -> u64 {
        self.items[path.as_bytes()].ino
    }

    fn stat(&self, path: &[u8]) -> Option<FileMetadata> {
        self.items.get(&plain(path)).map(|i| FileMetadata {
            len: i.data.len() as i64,
            mtime: i.mtime,
            mtime_nsec: 0,
            mode: i.mode,
            uid: 0,
            gid: 0,
            rdev: 0,
            dev: 1,
            ino: i.ino,
            nlink: 1,
        })
    }

    fn children(&self, dir: &[u8]) -> Vec<Vec<u8>> {
        let mut start = dir.to_vec();
        start.push(b'/');
        self.items
            .keys()
            .filter(|p| p.starts_with(&start) && !p[start.len()..].contains(&b'/'))
            .cloned()
            .collect()
    }

    fn list(&self, dir: &[u8]) -> Option<Vec<DirEntry>> {
        let dir = plain(dir);
        self.stat(&dir)?;
        Some(
            self.children(&dir)
                .iter()
                .map(|p| DirEntry {
                    name: p[dir.len() + 1..].to_vec(),
                    metadata: self.stat(p).unwrap(),
                })
                .collect(),
        )
    }

    fn node(&self, path: &[u8]) -> Node {
        let meta = self.stat(path).unwrap();
        let name = path.rsplit(|b| *b == b'/').next().unwrap().to_vec();
        Node {
            name,
            path: path.to_vec(),
            meta,
            followed: Ok(meta),
            device: Some(1),
            target: None,
            rules: None,
            children: Ok(self.children(path).iter().map(|c| self.node(c)).collect()),
        }
    }

    fn write_as(&mut self, path: &[u8], mode: Option<u32>, method: WriteMethod, data: &[u8]) {
        let mode = S_IFREG | mode.unwrap_or(0o644);
        match method {
            WriteMethod::Append => {
                self.items.get_mut(path).unwrap().data.extend_from_slice(data);
            }
            WriteMethod::InPlace if self.items.contains_key(path) => {
                self.items.get_mut(path).unwrap().data = data.to_vec();
            }
            WriteMethod::Sparse => {
                let mut whole = Vec::new();
                for piece in sparse_pieces(data) {
                    if piece.hole {
                        whole.resize(piece.end, 0);
                    } else {
                        whole.extend_from_slice(&data[piece.start..piece.end]);
                    }
                }
                self.put(path, mode, 5_000_000, &whole);
            }
            _ => self.put(path, mode, 5_000_000, data),
        }
    }

    fn run(&mut self, steps: Vec<Step>, data: &[u8]) {
        for step in steps {
            match step.action {
                FsAction::MakeDir { path, mode } => self.make_dir(&path, mode),
                FsAction::Rename { from, to } => {
                    let item = self.items.remove(&from).unwrap();
                    self.items.insert(to, item);
                }
                FsAction::Write { path, mode, method } => self.write_as(&path, mode, method, data),
                FsAction::SetTimes { path, mtime, .. } => {
                    self.items.get_mut(&path).unwrap().mtime = mtime;
                }
                FsAction::RemoveFile { path } | FsAction::RemoveDir { path } => {
                    self.items.remove(&plain(&path));
                }
                FsAction::HardLink { from, to } => {
                    let item = self.items[&from].clone();
                    self.items.insert(to, item);
                }
                FsAction::CopyFile { from, to } => {
                    let item = self.items[&from].clone();
                    self.put(&to, item.mode, item.mtime, &item.data);
                }
                FsAction::SetOwner { .. } | FsAction::SymLink { .. } => {}
            }
        }
    }
}

/// A path without the dots that stand for the directory they are in.
fn plain(path: &[u8]) -> Vec<u8> {
    let parts: Vec<&[u8]> = path.split(|b| *b == b'/').filter(|c| *c != b".").collect();
    parts.join(&b'/')
}

fn under(dir: &[u8], name: &[u8]) -> Vec<u8> {
    [dir, b"/", name].concat()
}

/// Runs a transfer to its end and hands back what it counted and reported.
fn do_transfer(
    fs: &mut Memory,
    opts: &TransferOptions,
    progress: ProgressTracker,
) -> (TransferResult, Vec<ProgressEvent>) {
    let (dest, mut filters) = LocalTransfer::prepare(opts).unwrap();
    let items = match opts.files_from() {
        Some(path) => {
            let content = fs.items[path.as_slice()].data.clone();
            let names = files_from_names(&content, &filters);
            let metas: Vec<Option<FileMetadata>> =
                names.iter().map(|n| fs.stat(&under(&opts.source()[0], n))).collect();
            build_file_list_from_file(opts.source(), &names, &metas).unwrap()
        }
        None => {
            let sources: Vec<Source> = opts
                .source()
                .iter()
                .map(|p| Source { path: p.clone(), found: Ok(fs.node(p)) })
                .collect();
            build_file_list(&sources, opts.recursive(), &mut filters, opts.one_file_system())
                .unwrap()
        }
    };
    let sources: Vec<Vec<u8>> = items.iter().map(|i| i.source_path.clone()).collect();
    let entries: Vec<FileEntry> = items.into_iter().map(|i| i.entry).collect();
    let mut t = LocalTransfer::new(opts, dest, filters, entries, progress);
    let mut tried = Attempts { link: None, copy: None };
    loop {
        match t.stage() {
            Stage::Finished => break,
            Stage::DeleteBefore | Stage::DeleteIn(_) | Stage::DeleteAfter => {
                let dir = t.cleans().unwrap();
                let listing = fs.list(&dir);
                let steps = t.clean_up(listing.as_deref());
                fs.run(steps, b"");
            }
            Stage::Item(i) | Stage::Data(i) => {
                let data = fs.items[&sources[i]].data.clone();
                if t.stage() == Stage::Data(i) {
                    let there = fs.stat(&t.entry(i).1).is_some();
                    let steps = t.finish(data.len(), there);
                    fs.run(steps, &data);
                    continue;
                }
                let (entry, path) = t.entry(i);
                let found = |dirs: &[Vec<u8>]| -> Vec<Option<FileMetadata>> {
                    dirs.iter().map(|d| fs.stat(&under(d, &entry.name))).collect()
                };
                let probe = LocalProbe {
                    compare: found(opts.compare_dest()),
                    link: found(opts.link_dest()),
                    copy: found(opts.copy_dest()),
                    dest: fs.stat(&path),
                    same_checksum: fs.items.get(&path).map_or(false, |d| d.data == data),
                    source_len: data.len(),
                    basis_len: fs.items.get(&path).map_or(0, |d| d.data.len()),
                };
                match t.decide(&probe, tried) {
                    LocalAction::TryLink { from, to } => {
                        let action = FsAction::HardLink { from, to };
                        fs.run(vec![Step { action, required: false }], b"");
                        tried.link = Some(true);
                        continue;
                    }
                    LocalAction::TryCopy { from, to } => {
                        let action = FsAction::CopyFile { from, to };
                        fs.run(vec![Step { action, required: false }], b"");
                        tried.copy = Some(true);
                        continue;
                    }
                    LocalAction::Directory { steps } | LocalAction::Symlink { steps } => {
                        fs.run(steps, b"")
                    }
                    LocalAction::Append { from, steps } => fs.run(steps, &data[from..]),
                    _ => {}
                }
                tried = Attempts { link: None, copy: None };
            }
        }
    }
    let events = t.take_events();
    (t.into_result(), events)
}

fn p(path: &str) -> Vec<u8> {
    path.as_bytes().to_vec()
}

fn transfer(fs: &mut Memory, opts: &TransferOptions) -> TransferResult {
    do_transfer(fs, opts, ProgressTracker::new()).0
}

fn setup() -> Memory {
    Memory::new(&["/src", "/dst"])
}

#[test]
fn test_transfer_single_file() {
    let mut fs = setup();
    fs.write("/src/hello.txt", "hello world", 100);

    let opts = TransferOptions::builder().source(p("/src/hello.txt")).dest(p("/dst")).build();

    let result = transfer(&mut fs, &opts);
    assert_eq!(result.stats.files_transferred, 1);
    assert_eq!(fs.read("/dst/hello.txt"), b"hello world");
}

#[test]
fn test_transfer_recursive_directory() {
    let mut fs = Memory::new(&["/src", "/src/sub", "/dst"]);
    fs.write("/src/a.txt", "aaa", 100);
    fs.write("/src/sub/b.txt", "bbb", 100);

    let opts = TransferOptions::builder().recursive(true).source(p("/src")).dest(p("/dst")).build();

    let result = transfer(&mut fs, &opts);
    assert_eq!(result.stats.files_transferred, 2);
    assert_eq!(fs.read("/dst/a.txt"), b"aaa");
    assert_eq!(fs.read("/dst/sub/b.txt"), b"bbb");
}

#[test]
fn test_transfer_with_exclude() {
    let mut fs = setup();
    fs.write("/src/keep.txt", "keep", 100);
    fs.write("/src/skip.tmp", "skip", 100);

    let opts = TransferOptions::builder()
        .recursive(true)
        .source(p("/src"))
        .dest(p("/dst"))
        .exclude("*.tmp")
        .build();

    let result = transfer(&mut fs, &opts);
    assert_eq!(result.stats.files_transferred, 1);
    assert!(fs.has("/dst/keep.txt"));
    assert!(!fs.has("/dst/skip.tmp"));
}

#[test]
fn test_transfer_dry_run() {
    let mut fs = setup();
    fs.write("/src/file.txt", "data", 100);

    let opts = TransferOptions::builder()
        .source(p("/src/file.txt"))
        .dest(p("/dst"))
        .dry_run(true)
        .build();

    let result = transfer(&mut fs, &opts);
    assert_eq!(result.stats.files_transferred, 1);
    assert!(!fs.has("/dst/file.txt"));
}

#[test]
fn test_transfer_skip_unchanged() {
    let mut fs = setup();
    fs.write("/src/file.txt", "same content", 1_000_000);
    fs.write("/dst/file.txt", "same content", 1_000_000);

    let opts = TransferOptions::builder().source(p("/src/file.txt")).dest(p("/dst")).build();

    let result = transfer(&mut fs, &opts);
    assert_eq!(result.stats.files_skipped, 1);
    assert_eq!(result.stats.files_transferred, 0);
}

#[test]
fn test_transfer_delete_before() {
    let mut fs = setup();
    fs.write("/src/keep.txt", "keep", 100);
    fs.write("/dst/extra.txt", "extra", 100);

    let opts = TransferOptions::builder()
        .recursive(true)
        .source(p("/src"))
        .dest(p("/dst"))
        .delete(DeleteMode::Before)
        .build();

    let result = transfer(&mut fs, &opts);
    assert_eq!(result.stats.files_deleted, 1);
    assert!(!fs.has("/dst/extra.txt"));
}

#[test]
fn test_transfer_preserve_perms() {
    let mut fs = setup();
    fs.put(b"/src/exec.sh", S_IFREG | 0o755, 100, b"#!/bin/sh");

    let opts = TransferOptions::builder()
        .preserve_perms(true)
        .source(p("/src/exec.sh"))
        .dest(p("/dst"))
        .build();

    transfer(&mut fs, &opts);
    assert_eq!(fs.stat(b"/dst/exec.sh").unwrap().mode & 0o777, 0o755);
}

#[test]
fn test_max_size_filter() {
    let mut fs = setup();
    fs.write("/src/small.txt", "hi", 100);
    fs.write("/src/big.txt", &"a".repeat(1000), 100);

    let opts = TransferOptions::builder()
        .recursive(true)
        .source(p("/src"))
        .dest(p("/dst"))
        .max_size(100)
        .build();

    let result = transfer(&mut fs, &opts);
    assert_eq!(result.stats.files_transferred, 1);
    assert!(fs.has("/dst/small.txt"));
    assert!(!fs.has("/dst/big.txt"));
}

#[test]
fn test_min_size_filter() {
    let mut fs = setup();
    fs.write("/src/tiny.txt", "x", 100);
    fs.write("/src/normal.txt", &"a".repeat(100), 100);

    let opts = TransferOptions::builder()
        .recursive(true)
        .source(p("/src"))
        .dest(p("/dst"))
        .min_size(10)
        .build();

    let result = transfer(&mut fs, &opts);
    assert_eq!(result.stats.files_transferred, 1);
    assert!(!fs.has("/dst/tiny.txt"));
    assert!(fs.has("/dst/normal.txt"));
}

#[test]
fn test_inplace_write() {
    let mut fs = setup();
    fs.write("/src/file.txt", "new content", 2_000_000);
    fs.write("/dst/file.txt", "old content", 1_000_000);
    let before = fs.ino("/dst/file.txt");

    let opts = TransferOptions::builder()
        .inplace(true)
        .source(p("/src/file.txt"))
        .dest(p("/dst"))
        .build();

    transfer(&mut fs, &opts);
    assert_eq!(fs.read("/dst/file.txt"), b"new content");
    assert_eq!(fs.ino("/dst/file.txt"), before);
}

#[test]
fn test_sparse_write() {
    let mut fs = setup();
    let mut data = vec![0u8; 8192];
    data.extend_from_slice(b"end marker");
    fs.put(b"/src/sparse.bin", S_IFREG | 0o644, 100, &data);

    let opts = TransferOptions::builder()
        .sparse(true)
        .source(p("/src/sparse.bin"))
        .dest(p("/dst"))
        .build();

    transfer(&mut fs, &opts);
    assert_eq!(fs.read("/dst/sparse.bin"), data);
    let holes: Vec<bool> = sparse_pieces(&data).iter().map(|piece| piece.hole).collect();
    assert_eq!(holes, vec![true, true, false]);
}

#[test]
fn test_delete_during() {
    let mut fs = setup();
    fs.write("/src/keep.txt", "keep", 100);
    fs.write("/dst/extra.txt", "extra", 100);

    let opts = TransferOptions::builder()
        .recursive(true)
        .source(p("/src"))
        .dest(p("/dst"))
        .delete(DeleteMode::During)
        .build();

    let result = transfer(&mut fs, &opts);
    assert_eq!(result.stats.files_deleted, 1);
    assert!(!fs.has("/dst/extra.txt"));
    assert!(fs.has("/dst/keep.txt"));
}

#[test]
fn files_are_deleted_after_the_rest() {
    let mut fs = setup();
    fs.write("/src/keep.txt", "keep", 100);
    fs.write("/dst/extra.txt", "extra", 100);
    let opts = TransferOptions::builder()
        .recursive(true)
        .source(p("/src"))
        .dest(p("/dst"))
        .delete(DeleteMode::After)
        .build();
    let result = transfer(&mut fs, &opts);
    assert_eq!(result.stats.files_deleted, 1);
    assert!(!fs.has("/dst/extra.txt"));
    assert!(fs.has("/dst/keep.txt"));
}

#[test]
fn test_bwlimit() {
    let mut fs = setup();
    fs.write("/src/file.txt", "data", 100);

    let opts = TransferOptions::builder()
        .bwlimit(1_000_000)
        .source(p("/src/file.txt"))
        .dest(p("/dst"))
        .build();

    let result = transfer(&mut fs, &opts);
    assert_eq!(result.stats.files_transferred, 1);
    assert_eq!(fs.read("/dst/file.txt"), b"data");
}

#[test]
fn test_timeout_succeeds() {
    let mut fs = setup();
    fs.write("/src/file.txt", "data", 100);

    let opts =
        TransferOptions::builder().timeout(60).source(p("/src/file.txt")).dest(p("/dst")).build();

    let result = transfer(&mut fs, &opts);
    assert_eq!(result.stats.files_transferred, 1);
    assert_eq!(
        timed_out(60).message(),
        "filesystem I/O error at <timeout>: transfer timed out after 60 seconds"
    );
}

#[test]
fn test_compressed_transfer() {
    let mut fs = setup();
    let basis: Vec<u8> = (0..5000).map(|i| (i % 256) as u8).collect();
    let mut source = basis.clone();
    source[2500] = 0xFF;
    source[2501] = 0xFE;
    fs.put(b"/src/data.bin", S_IFREG | 0o644, 2_000_000, &source);
    fs.put(b"/dst/data.bin", S_IFREG | 0o644, 1_000_000, &basis);

    let opts = TransferOptions::builder()
        .compress(true)
        .compress_level(6)
        .source(p("/src/data.bin"))
        .dest(p("/dst"))
        .build();

    let result = transfer(&mut fs, &opts);
    assert_eq!(result.stats.files_transferred, 1);
    assert_eq!(fs.read("/dst/data.bin"), source);
}

#[test]
fn test_files_from() {
    let mut fs = setup();
    fs.write("/src/a.txt", "aaa", 100);
    fs.write("/src/b.txt", "bbb", 100);
    fs.write("/src/c.txt", "ccc", 100);
    fs.write("/filelist.txt", "a.txt\nc.txt\n", 100);

    let opts = TransferOptions::builder()
        .source(p("/src"))
        .dest(p("/dst"))
        .files_from(p("/filelist.txt"))
        .build();

    let result = transfer(&mut fs, &opts);
    assert_eq!(result.stats.files_transferred, 2);
    assert!(fs.has("/dst/a.txt"));
    assert!(!fs.has("/dst/b.txt"));
    assert!(fs.has("/dst/c.txt"));
}

#[test]
fn test_link_dest() {
    let mut fs = Memory::new(&["/src", "/dst", "/alt"]);
    fs.write("/src/file.txt", "data", 2_000_000);
    fs.write("/alt/file.txt", "data", 2_000_000);

    let opts = TransferOptions::builder()
        .source(p("/src/file.txt"))
        .dest(p("/dst"))
        .link_dest(p("/alt"))
        .build();

    let result = transfer(&mut fs, &opts);
    assert_eq!(result.stats.files_transferred, 1);
    assert!(fs.has("/dst/file.txt"));
    assert_eq!(fs.ino("/alt/file.txt"), fs.ino("/dst/file.txt"));
}

#[test]
fn test_compare_dest() {
    let mut fs = Memory::new(&["/src", "/dst", "/alt"]);
    fs.write("/src/same.txt", "data", 2_000_000);
    fs.write("/alt/same.txt", "data", 2_000_000);

    let opts = TransferOptions::builder()
        .source(p("/src/same.txt"))
        .dest(p("/dst"))
        .compare_dest(p("/alt"))
        .build();

    let result = transfer(&mut fs, &opts);
    assert_eq!(result.stats.files_skipped, 1);
    assert_eq!(result.stats.files_transferred, 0);
    assert!(!fs.has("/dst/same.txt"));
}

#[test]
fn test_backup() {
    let mut fs = setup();
    fs.write("/src/file.txt", "new content", 2_000_000);
    fs.write("/dst/file.txt", "old content", 1_000_000);

    let opts = TransferOptions::builder()
        .backup(true)
        .source(p("/src/file.txt"))
        .dest(p("/dst"))
        .build();

    transfer(&mut fs, &opts);
    assert_eq!(fs.read("/dst/file.txt"), b"new content");
    assert_eq!(fs.read("/dst/file.txt~"), b"old content");
}

#[test]
fn test_backup_with_dir() {
    let mut fs = setup();
    fs.write("/src/file.txt", "new", 2_000_000);
    fs.write("/dst/file.txt", "old", 1_000_000);

    let opts = TransferOptions::builder()
        .backup(true)
        .backup_dir(p("/backups"))
        .source(p("/src/file.txt"))
        .dest(p("/dst"))
        .build();

    transfer(&mut fs, &opts);
    assert_eq!(fs.read("/dst/file.txt"), b"new");
    assert_eq!(fs.read("/backups/file.txt~"), b"old");
}

#[test]
fn test_append_mode() {
    let mut fs = setup();
    fs.write("/src/log.txt", "line1\nline2\nline3\n", 2_000_000);
    fs.write("/dst/log.txt", "line1\n", 1_000_000);

    let opts = TransferOptions::builder()
        .append(true)
        .source(p("/src/log.txt"))
        .dest(p("/dst"))
        .build();

    let result = transfer(&mut fs, &opts);
    assert_eq!(result.stats.files_transferred, 1);
    assert_eq!(fs.read("/dst/log.txt"), b"line1\nline2\nline3\n");
}

#[test]
fn test_partial_dir() {
    let mut fs = setup();
    fs.write("/src/file.txt", "data", 100);

    let opts = TransferOptions::builder()
        .partial_dir(p("/dst/.partial"))
        .source(p("/src/file.txt"))
        .dest(p("/dst"))
        .build();

    let result = transfer(&mut fs, &opts);
    assert_eq!(result.stats.files_transferred, 1);
    assert_eq!(fs.read("/dst/file.txt"), b"data");
}

#[test]
fn test_copy_dest() {
    let mut fs = Memory::new(&["/src", "/dst", "/alt"]);
    fs.write("/src/file.txt", "data", 2_000_000);
    fs.write("/alt/file.txt", "data", 2_000_000);

    let opts = TransferOptions::builder()
        .source(p("/src/file.txt"))
        .dest(p("/dst"))
        .copy_dest(p("/alt"))
        .build();

    let result = transfer(&mut fs, &opts);
    assert_eq!(result.stats.files_transferred, 1);
    assert_eq!(fs.read("/dst/file.txt"), b"data");
    assert_ne!(fs.ino("/alt/file.txt"), fs.ino("/dst/file.txt"));
}

#[test]
fn test_itemize_changes_emitted() {
    let mut fs = setup();
    fs.write("/src/file.txt", "new", 100);

    let opts = TransferOptions::builder()
        .itemize_changes(true)
        .source(p("/src/file.txt"))
        .dest(p("/dst"))
        .build();

    let (_, events) = do_transfer(&mut fs, &opts, ProgressTracker::with_callback());
    let captured: Vec<(char, char)> = events
        .iter()
        .filter_map(|e| match e {
            ProgressEvent::FileItemized { changes, .. } => {
                Some((changes.update_type, changes.file_type))
            }
            _ => None,
        })
        .collect();
    assert_eq!(captured, vec![('c', 'f')]);
}

#[test]
fn a_second_transfer_skips_every_file() {
    let mut fs = setup();
    fs.write("/src/a.txt", "aaa", 100);
    fs.write("/src/b.txt", "bbb", 200);
    let opts = TransferOptions::builder()
        .recursive(true)
        .preserve_times(true)
        .source(p("/src"))
        .dest(p("/dst"))
        .build();
    assert_eq!(transfer(&mut fs, &opts).stats.files_transferred, 2);
    let again = transfer(&mut fs, &opts);
    assert_eq!(again.stats.files_transferred, 0);
    assert_eq!(again.stats.files_skipped, 2);
}

#[test]
fn every_file_starts_and_ends_once() {
    let mut fs = setup();
    fs.write("/src/a.txt", "aaa", 100);
    fs.write("/src/b.txt", "bbb", 200);
    fs.write("/dst/b.txt", "bbb", 200);
    let opts =
        TransferOptions::builder().recursive(true).source(p("/src")).dest(p("/dst")).build();
    let (_, events) = do_transfer(&mut fs, &opts, ProgressTracker::with_callback());
    let ends = events
        .iter()
        .filter(|e| {
            matches!(e, ProgressEvent::FileComplete { .. } | ProgressEvent::FileSkipped { .. })
        })
        .count();
    assert_eq!(ends, 2);
}

#[test]
fn preparing_reports_what_is_wrong() {
    let no_dest = TransferOptions::builder().build();
    assert!(matches!(
        LocalTransfer::prepare(&no_dest),
        Err(FerrosyncError::Fs(FsError::NotFound { .. }))
    ));
    let bad = TransferOptions::builder().dest(p("/d")).filter("nonsense").build();
    assert!(matches!(LocalTransfer::prepare(&bad), Err(FerrosyncError::Filter(_))));
}

fn arriving(name: &[u8], len: i64, mode: u32) -> FileEntry {
    FileEntry { name: name.to_vec(), len, mtime: 1700000000, mode, ..Default::default() }
}

#[test]
fn test_streaming_transfer_dry_run() {
    let opts = TransferOptions::builder().dest(p("/dst")).dry_run(true).build();
    let mut t =
        StreamingTransfer::new(&opts, p("/dst"), FilterRuleList::new(), ProgressTracker::new());
    assert!(t.accept(&arriving(b"a.txt", 100, S_IFREG | 0o644), false).is_empty());
    assert!(t.accept(&arriving(b"b.txt", 200, S_IFREG | 0o644), false).is_empty());
    let result = t.into_result();
    assert_eq!(result.stats.files_transferred, 2);
    assert_eq!(result.stats.total_size, 300);
}

#[test]
fn test_streaming_transfer_directories() {
    let opts = TransferOptions::builder().dest(p("/dst")).dry_run(true).build();
    let mut t =
        StreamingTransfer::new(&opts, p("/dst"), FilterRuleList::new(), ProgressTracker::new());
    t.accept(&arriving(b"subdir", 0, S_IFDIR | 0o755), false);
    t.accept(&arriving(b"file.txt", 50, S_IFREG | 0o644), false);
    let result = t.into_result();
    assert_eq!(result.stats.directories_created, 1);
    assert_eq!(result.stats.files_transferred, 1);
}

#[test]
fn test_streaming_transfer_with_size_filter() {
    let opts = TransferOptions::builder().dest(p("/dst")).dry_run(true).max_size(150).build();
    let mut t =
        StreamingTransfer::new(&opts, p("/dst"), FilterRuleList::new(), ProgressTracker::new());
    t.accept(&arriving(b"small.txt", 100, S_IFREG | 0o644), false);
    t.accept(&arriving(b"large.txt", 200, S_IFREG | 0o644), false);
    let result = t.into_result();
    assert_eq!(result.stats.files_transferred, 1);
    assert_eq!(result.stats.files_skipped, 1);
}

#[test]
fn test_metadata_to_file_entry() {
    let mut fs = setup();
    fs.write("/src/entry_test.txt", "test data", 100);
    let meta = fs.stat(b"/src/entry_test.txt").unwrap();
    let entry = meta.to_file_entry(b"entry_test.txt".to_vec());
    assert_eq!(entry.name, b"entry_test.txt");
    assert_eq!(entry.len, 9);
    assert!(entry.is_file());
}

#[test]
fn names_that_are_no_text_are_kept() {
    let mut fs = setup();
    fs.put(b"/src/\xff", S_IFREG | 0o644, 100, b"one");
    fs.put(b"/src/\xfe", S_IFREG | 0o644, 100, b"two");
    fs.write("/src/?", "mark", 100);
    fs.put(b"/dst/\xfd", S_IFREG | 0o644, 100, b"old");
    fs.write("/dst/?", "mark", 100);

    let opts = TransferOptions::builder()
        .recursive(true)
        .delete(DeleteMode::Before)
        .source(p("/src"))
        .dest(p("/dst"))
        .build();

    let result = transfer(&mut fs, &opts);
    assert_eq!(result.stats.files_deleted, 1);
    assert_eq!(fs.items[b"/dst/\xff".as_slice()].data, b"one");
    assert_eq!(fs.items[b"/dst/\xfe".as_slice()].data, b"two");
    assert!(!fs.items.contains_key(b"/dst/\xfd".as_slice()));
    assert_eq!(fs.read("/dst/?"), b"mark");
}

#[test]
fn nothing_is_moved_out_of_the_destination_itself() {
    let entry = FileEntry {
        name: b"f".to_vec(),
        len: 3,
        mode: S_IFREG | 0o644,
        ..Default::default()
    };
    let moves = |partial: &str| {
        let opts = TransferOptions::builder().dest(p("/d")).partial_dir(p(partial)).build();
        let engine = ReceiverEngine::new(p("/d"), opts);
        let whole = engine.receive_file(&entry, false, 3, None, None);
        let streamed = engine.finish_file(&entry, None);
        let count = |steps: &[Step]| {
            steps.iter().filter(|s| matches!(s.action, FsAction::Rename { .. })).count()
        };
        (count(&whole), count(&streamed))
    };
    assert_eq!(moves("/d"), (0, 0));
    assert_eq!(moves("/d/."), (0, 0));
    assert_eq!(moves("//d/"), (0, 0));
    assert_eq!(moves("/./d"), (0, 0));
    assert_eq!(moves("/d/.part"), (1, 1));
    assert_eq!(moves("d"), (1, 1));
    assert_eq!(moves("/d/../d"), (1, 1));
}

#[test]
fn newer_files_are_left_alone_whatever_their_size() {
    let opts = TransferOptions::builder()
        .source(p("/src/f"))
        .dest(p("/dst"))
        .update(true)
        .build();
    let mut fs = setup();
    fs.write("/src/f", "from the source", 100);
    fs.write("/dst/f", "newer", 101);
    let result = transfer(&mut fs, &opts);
    assert_eq!(result.stats.files_skipped, 1);
    assert_eq!(fs.read("/dst/f"), b"newer");

    fs.write("/dst/f", "older", 99);
    let result = transfer(&mut fs, &opts);
    assert_eq!(result.stats.files_transferred, 1);
    assert_eq!(fs.read("/dst/f"), b"from the source");
}
