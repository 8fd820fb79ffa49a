use ferrosync_core::filelist::entry::{FileEntry, HardLinkInfo, S_IFDIR, S_IFREG, WIRE_S_IFLNK};
use ferrosync_core::filelist::scanner::{
    build_file_list_from_file, files_from_names, AclEnricher, Enricher, FileListEnricher,
    FileListItem, FileListScanner, FoundAttr, HardLinkGrouper, ScanOptions, Source,
    SymlinkEnricher, XattrEnricher,
};
use ferrosync_core::filelist::walk::{collect_directory_entries, Node, WalkOptions};
use ferrosync_core::error::FsError;
use ferrosync_core::filter::{FilterRule, FilterRuleList};
use ferrosync_core::fs::FileMetadata;
use ferrosync_core::options::DirectoryMode;

fn meta(mode: u32, len: i64) -> FileMetadata {
    FileMetadata {
        len,
        mtime: 100,
        mtime_nsec: 0,
        mode,
        uid: 0,
        gid: 0,
        rdev: 0,
        dev: 1,
        ino: 1,
        nlink: 1,
    }
}

fn node(name: &str, path: &str, mode: u32, children: Vec<Node>) -> Node {
    let m = meta(mode, 5);
    Node {
        name: name.as_bytes().to_vec(),
        path: path.as_bytes().to_vec(),
        meta: m,
        followed: Ok(m),
        device: Some(1),
        target: None,
        rules: None,
        children: Ok(children),
    }
}

fn file(name: &str, path: &str) -> Node {
    node(name, path, S_IFREG | 0o644, Vec::new())
}

fn source(n: Node) -> Source {
    Source { path: n.path.clone(), found: Ok(n) }
}

fn recurse() -> ScanOptions {
    ScanOptions { dir_mode: DirectoryMode::Recurse, ..Default::default() }
}

fn names(items: &[FileListItem]) -> Vec<&[u8]> {
    items.iter().map(|i| i.entry.name.as_slice()).collect()
}

#[test]
fn test_scan_single_file() {
    let opts = ScanOptions { dir_mode: DirectoryMode::Skip, ..Default::default() };
    let scanner = FileListScanner::new(opts);
    let mut filters = FilterRuleList::new();
    let items = scanner
        .scan(&[source(file("hello.txt", "/t/hello.txt"))], &mut filters)
        .unwrap();

    assert_eq!(items.len(), 1);
    assert_eq!(items[0].entry.name, b"hello.txt");
    assert!(items[0].entry.is_file());
}

#[test]
fn test_scan_recursive_directory() {
    let sub = node("sub", "/t/sub", S_IFDIR | 0o755, vec![file("b.txt", "/t/sub/b.txt")]);
    let top = node("t", "/t", S_IFDIR | 0o755, vec![sub, file("a.txt", "/t/a.txt")]);
    let scanner = FileListScanner::new(recurse());
    let mut filters = FilterRuleList::new();
    let items = scanner.scan(&[source(top)], &mut filters).unwrap();

    assert_eq!(items.len(), 4);
    let names = names(&items);
    assert!(names.contains(&b".".as_slice()));
    assert!(names.contains(&b"a.txt".as_slice()));
    assert!(names.contains(&b"sub".as_slice()));
    assert!(names.contains(&b"sub/b.txt".as_slice()));
    // What a directory holds comes by name.
    assert_eq!(names, vec![&b"."[..], b"a.txt", b"sub", b"sub/b.txt"]);
    assert_eq!(items[3].index, 3);
    assert_eq!(items[3].source_path, b"/t/sub/b.txt");
}

#[test]
fn test_scan_with_filter() {
    let dir = node(
        "dir",
        "/t/dir",
        S_IFDIR | 0o755,
        vec![file("keep.txt", "/t/dir/keep.txt"), file("skip.tmp", "/t/dir/skip.tmp")],
    );
    let scanner = FileListScanner::new(recurse());
    let mut filters = FilterRuleList::new();
    filters.add_exclude("*.tmp").unwrap();
    let items = scanner.scan(&[source(dir)], &mut filters).unwrap();

    let names = names(&items);
    assert!(names.contains(&b"keep.txt".as_slice()));
    assert!(!names.contains(&b"skip.tmp".as_slice()));
}

#[test]
fn test_scan_directory_not_filtered_at_top_level() {
    let top = node("t", "/t", S_IFDIR | 0o755, vec![file("file.txt", "/t/file.txt")]);
    let scanner = FileListScanner::new(recurse());
    let mut filters = FilterRuleList::new();
    filters.add_exclude("*").unwrap();
    let items = scanner.scan(&[source(top)], &mut filters).unwrap();

    assert_eq!(items.len(), 1);
    assert!(items[0].entry.is_dir());
}

#[test]
fn test_scan_entries() {
    let top = node("t", "/t", S_IFDIR | 0o755, vec![file("file.txt", "/t/file.txt")]);
    let scanner = FileListScanner::new(recurse());
    let mut filters = FilterRuleList::new();
    let entries = scanner.scan_entries(&[source(top)], &mut filters).unwrap();

    assert_eq!(entries.len(), 2); // "." + "file.txt"
    assert!(entries[0].is_dir());
    assert!(entries[1].is_file());
}

#[test]
fn test_scan_directory_module() {
    let top = node(
        "t",
        "/t",
        S_IFDIR | 0o755,
        vec![file("a.txt", "/t/a.txt"), file("b.txt", "/t/b.txt")],
    );
    let scanner = FileListScanner::new(recurse());
    let mut filters = FilterRuleList::new();
    let entries = scanner.scan_directory(&Ok(top), b"/t", &mut filters).unwrap();

    assert_eq!(entries.len(), 3); // "." + "a.txt" + "b.txt"
}

#[test]
fn scan_fails_where_a_source_is_missing() {
    let scanner = FileListScanner::new(recurse());
    let mut filters = FilterRuleList::new();
    let missing = Source {
        path: b"/none".to_vec(),
        found: Err(FsError::NotFound { path: b"/none".to_vec() }),
    };
    let result = scanner.scan(&[missing], &mut filters);
    assert!(matches!(result, Err(FsError::NotFound { .. })));
}

#[test]
fn test_hardlink_grouper() {
    let item = |index: i32, name: &[u8], path: &[u8]| FileListItem {
        index,
        entry: FileEntry {
            name: name.to_vec(),
            hard_link_info: Some(HardLinkInfo { dev: 1, ino: 100, nlink: 2 }),
            ..Default::default()
        },
        source_path: path.to_vec(),
    };
    let mut items = vec![item(0, b"first", b"/a"), item(1, b"second", b"/b")];

    let grouper = HardLinkGrouper;
    grouper.finalize(&mut items);

    assert!(items[0].entry.hlink_source.is_none());
    assert_eq!(items[1].entry.hlink_source.as_deref(), Some(b"first".as_slice()));
}

#[test]
fn test_symlink_enricher() {
    let mut link = node("link", "/t/link", WIRE_S_IFLNK | 0o777, Vec::new());
    link.target = Some(b"target".to_vec());
    let enricher = SymlinkEnricher::new();

    let mut entry = link.meta.to_file_entry(b"link".to_vec());
    assert!(entry.is_symlink());
    assert!(entry.link_target.is_empty());

    enricher.enrich(&mut entry, &link);
    assert_eq!(entry.link_target, b"target");

    let mut scanner = FileListScanner::new(recurse());
    scanner.add_enricher(Enricher::Symlinks(SymlinkEnricher::new()));
    let mut filters = FilterRuleList::new();
    let items = scanner.scan(&[source(link)], &mut filters).unwrap();
    assert_eq!(items[0].entry.link_target, b"target");
}

#[test]
fn test_build_file_list_from_file() {
    let filters = FilterRuleList::new();
    let names = files_from_names(b"a.txt\nb.txt\nmissing.txt\n", &filters);
    assert_eq!(names.len(), 3);
    let m = meta(S_IFREG | 0o644, 1);
    let items =
        build_file_list_from_file(&[b"/base".to_vec()], &names, &[Some(m), Some(m), None]).unwrap();

    assert_eq!(items.len(), 2);
    assert_eq!(items[0].entry.name, b"a.txt");
    assert_eq!(items[1].entry.name, b"b.txt");
    assert_eq!(items[1].source_path, b"/base/b.txt");
    assert!(build_file_list_from_file(&[], &names, &[Some(m), Some(m), None]).is_err());
}

#[test]
fn files_from_trims_and_filters() {
    let mut filters = FilterRuleList::new();
    filters.add_exclude("*.tmp").unwrap();
    let names = files_from_names(b"  a.txt \r\n\n\t\nb.tmp\nc", &filters);
    assert_eq!(names, vec![b"a.txt".to_vec(), b"c".to_vec()]);
}

#[test]
fn private_attributes_are_passed_over() {
    assert!(XattrEnricher::should_skip(b"system.posix_acl_access"));
    assert!(!XattrEnricher::should_skip(b"user.colour"));
}

#[test]
fn attributes_are_sent_by_name() {
    let attr = |name: &str, value: Option<&[u8]>| FoundAttr {
        name: name.as_bytes().to_vec(),
        value: value.map(|v| v.to_vec()),
    };
    let found = || {
        Some(vec![
            attr("user.b", Some(b"2")),
            attr("system.posix_acl_access", Some(b"x")),
            attr("user.gone", None),
            attr("user.rsync.%stat", Some(b"x")),
            attr("user.a", Some(b"1")),
        ])
    };
    let entry = meta(S_IFREG, 0).to_file_entry(b"f".to_vec());
    let sent = XattrEnricher::collect(&entry, found()).unwrap();
    let names: Vec<&[u8]> = sent.iter().map(|a| a.name.as_slice()).collect();
    assert_eq!(names, vec![&b"user.a\0"[..], b"user.b\0"]);
    assert_eq!(sent[0].value, b"1");
    assert!(XattrEnricher::collect(&entry, Some(vec![attr("system.x", Some(b""))])).is_none());
    assert!(XattrEnricher::collect(&entry, None).is_none());
    let link = meta(WIRE_S_IFLNK, 0).to_file_entry(b"l".to_vec());
    assert!(XattrEnricher::collect(&link, found()).is_none());
}

#[test]
fn access_lists_are_selected() {
    let file = meta(S_IFREG, 0).to_file_entry(b"f".to_vec());
    let dir = meta(S_IFDIR, 0).to_file_entry(b"d".to_vec());
    let link = meta(WIRE_S_IFLNK, 0).to_file_entry(b"l".to_vec());
    assert_eq!(AclEnricher::access_attr(&file).unwrap(), b"system.posix_acl_access");
    assert_eq!(AclEnricher::default_attr(&dir).unwrap(), b"system.posix_acl_default");
    assert!(AclEnricher::access_attr(&link).is_none());
    assert!(AclEnricher::default_attr(&file).is_none());
    let of_dir = AclEnricher::collect(&dir, Some(1), Some(2)).unwrap();
    assert_eq!((of_dir.access, of_dir.default), (1, Some(2)));
    let of_file = AclEnricher::collect(&file, Some(1), Some(2)).unwrap();
    assert_eq!((of_file.access, of_file.default), (1, None));
    assert!(AclEnricher::collect(&file, None, Some(2)).is_none());
    assert!(AclEnricher::collect(&link, Some(1), None).is_none());
}

#[test]
fn a_walk_that_fails_keeps_what_it_found() {
    let mut broken = node("b", "/t/b", S_IFDIR | 0o755, Vec::new());
    broken.children = Err(FsError::PermissionDenied { path: b"/t/b".to_vec() });
    let mut top =
        node("t", "/t", S_IFDIR | 0o755, vec![file("a", "/t/a"), broken, file("c", "/t/c")]);
    top.rules = Some(vec![FilterRule::parse("- *.o").unwrap()]);
    let opts =
        WalkOptions { copy_links: false, one_file_system: false, filter_merge_files: 1 };
    let mut entries = Vec::new();
    let mut filters = FilterRuleList::new();
    let result = collect_directory_entries(&top, b"", &mut entries, &mut filters, &opts);
    assert!(matches!(result, Err(FsError::PermissionDenied { .. })));
    let found: Vec<&[u8]> = entries.iter().map(|e| e.name.as_slice()).collect();
    assert_eq!(found, vec![&b"."[..], b"a", b"b"]);
    // The rules of the directory are still in force.
    assert_eq!(filters.len(), 1);
}

#[test]
fn every_scan_stays_on_its_device() {
    let mut away = node("away", "/t/away", S_IFDIR | 0o755, vec![file("f", "/t/away/f")]);
    away.device = Some(2);
    let top = node("t", "/t", S_IFDIR | 0o755, vec![file("a", "/t/a"), away]);
    let stay = ScanOptions { one_file_system: true, ..recurse() };
    let scanner = FileListScanner::new(stay);
    let mut filters = FilterRuleList::new();
    let found = source(top);
    let items = scanner.scan(&[found], &mut filters).unwrap();
    assert_eq!(names(&items), vec![b".".as_slice(), b"a"]);

    let mut away = node("away", "/t/away", S_IFDIR | 0o755, vec![file("f", "/t/away/f")]);
    away.device = Some(2);
    let top = node("t", "/t", S_IFDIR | 0o755, vec![file("a", "/t/a"), away]);
    let list = [source(top)];
    let entries = scanner.scan_entries(&list, &mut filters).unwrap();
    assert_eq!(entries.len(), 2);
    let entries = scanner.scan_directory(&list[0].found, b"/t", &mut filters).unwrap();
    assert_eq!(entries.len(), 2);
    let all = FileListScanner::new(recurse());
    assert_eq!(all.scan_entries(&list, &mut filters).unwrap().len(), 4);
}

#[test]
fn a_listing_follows_links_or_records_their_targets() {
    let mut link = node("link", "/t/link", WIRE_S_IFLNK | 0o777, Vec::new());
    link.target = Some(b"a".to_vec());
    link.followed = Ok(meta(S_IFREG | 0o600, 7));
    let mut broken = node("lost", "/t/lost", WIRE_S_IFLNK | 0o777, Vec::new());
    broken.target = Some(b"none".to_vec());
    broken.followed = Err(FsError::NotFound { path: b"/t/lost".to_vec() });
    let top: Result<Node, FsError> = Ok(node("t", "/t", S_IFDIR | 0o755, vec![link, broken]));
    let mut filters = FilterRuleList::new();

    let list = ScanOptions { dir_mode: DirectoryMode::List, ..Default::default() };
    let mut scanner = FileListScanner::new(list);
    scanner.add_enricher(Enricher::Symlinks(SymlinkEnricher::new()));
    let entries = scanner.scan_directory(&top, b"/t", &mut filters).unwrap();
    assert_eq!(entries.len(), 3);
    assert_eq!(entries[1].link_target, b"a");
    assert_eq!(entries[2].link_target, b"none");

    let follow = ScanOptions {
        dir_mode: DirectoryMode::List,
        copy_links: true,
        ..Default::default()
    };
    let scanner = FileListScanner::new(follow);
    let entries = scanner.scan_directory(&top, b"/t", &mut filters).unwrap();
    assert_eq!(entries.len(), 2);
    assert!(entries[1].is_file());
    assert_eq!(entries[1].len, 7);
}

#[test]
fn hard_links_are_grouped_where_they_are_preserved() {
    let linked = |name: &str, path: &str| {
        let mut n = file(name, path);
        n.meta.nlink = 2;
        n.meta.ino = 9;
        n.followed = Ok(n.meta);
        n
    };
    let keep = ScanOptions { preserve_hard_links: true, ..recurse() };
    let keep_list = ScanOptions { dir_mode: DirectoryMode::List, ..keep };
    let top = node(
        "t",
        "/t",
        S_IFDIR | 0o755,
        vec![linked("a", "/t/a"), linked("b", "/t/b")],
    );
    let sources = [source(top)];
    let mut filters = FilterRuleList::new();
    for (options, group) in [(keep, Some(b"a".to_vec())), (recurse(), None)] {
        let scanner = FileListScanner::new(options);
        let items = scanner.scan(&sources, &mut filters).unwrap();
        assert_eq!(items[1].entry.hlink_source, None);
        assert_eq!(items[2].entry.hlink_source, group);

        let entries = scanner.scan_entries(&sources, &mut filters).unwrap();
        assert_eq!(entries.len(), items.len());
        for (e, i) in entries.iter().zip(&items) {
            assert_eq!(e.name, i.entry.name);
            assert_eq!(e.hlink_source, i.entry.hlink_source);
        }

        let found = &sources[0].found;
        let entries = scanner.scan_directory(found, b"/t", &mut filters).unwrap();
        assert_eq!(entries[1].hlink_source, None);
        assert_eq!(entries[2].hlink_source, group);
    }
    let scanner = FileListScanner::new(keep_list);
    let entries = scanner.scan_directory(&sources[0].found, b"/t", &mut filters).unwrap();
    assert_eq!(entries[2].hlink_source.as_deref(), Some(b"a".as_slice()));
}

#[test]
fn scans_fail_together() {
    let scanner = FileListScanner::new(recurse());
    let missing = || Source {
        path: b"/none".to_vec(),
        found: Err(FsError::NotFound { path: b"/none".to_vec() }),
    };
    let mut filters = FilterRuleList::default();
    let items = scanner.scan(&[missing()], &mut filters);
    let entries = scanner.scan_entries(&[missing()], &mut filters);
    assert!(matches!(items, Err(FsError::NotFound { .. })));
    assert!(matches!(entries, Err(FsError::NotFound { .. })));
}

#[test]
fn enrichers_of_any_kind_make_a_pipeline() {
    let mut link = node("link", "/t/link", WIRE_S_IFLNK | 0o777, Vec::new());
    link.target = Some(b"a".to_vec());
    let mut twin = file("twin", "/t/twin");
    twin.meta.nlink = 2;
    let mut a = file("a", "/t/a");
    a.meta.nlink = 2;
    let sources = [source(node("t", "/t", S_IFDIR | 0o755, vec![link, twin, a]))];
    let mut filters = FilterRuleList::new();

    let scanner = FileListScanner::with_enrichers(recurse(), vec![SymlinkEnricher::new()]);
    let items = scanner.scan(&sources, &mut filters).unwrap();
    assert_eq!(names(&items), vec![b".".as_slice(), b"a", b"link", b"twin"]);
    assert_eq!(items[2].entry.link_target, b"a");
    assert_eq!(items[3].entry.hlink_source, None);

    let scanner = FileListScanner::with_enrichers(recurse(), vec![HardLinkGrouper]);
    let items = scanner.scan(&sources, &mut filters).unwrap();
    assert!(items[2].entry.link_target.is_empty());
    assert_eq!(items[3].entry.hlink_source.as_deref(), Some(b"a".as_slice()));
}
