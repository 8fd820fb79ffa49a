use ferrosync_core::filelist::entry::{
    format_mode, format_mtime, from_wire_mode, to_wire_mode, FileEntry, HardLinkInfo, S_IFBLK,
    S_IFDIR, S_IFIFO, S_IFREG, WIRE_S_IFLNK,
};

#[test]
fn test_format_mode_regular_file() {
    assert_eq!(format_mode(0o100644), "-rw-r--r--");
}

#[test]
fn test_format_mode_directory() {
    assert_eq!(format_mode(0o040755), "drwxr-xr-x");
}

#[test]
fn test_format_mode_executable() {
    assert_eq!(format_mode(0o100755), "-rwxr-xr-x");
}

#[test]
fn test_format_mode_symlink() {
    assert_eq!(format_mode(0o120777), "lrwxrwxrwx");
}

#[test]
fn test_format_mtime() {
    // 2024-01-15 11:50:45 UTC = 1705319445
    let s = format_mtime(1705319445);
    assert_eq!(s, "2024/01/15 11:50:45");
}

#[test]
fn test_file_entry_defaults() {
    let e = FileEntry::default();
    assert!(!e.is_file());
    assert!(!e.is_dir());
    assert!(!e.is_symlink());
    assert!(e.name.is_empty());
    assert_eq!(e.len, 0);
}

#[test]
fn test_file_type_checks() {
    let e = FileEntry {
        mode: S_IFREG | 0o644,
        ..Default::default()
    };
    assert!(e.is_file());
    assert!(!e.is_dir());

    let e = FileEntry {
        mode: S_IFDIR | 0o755,
        ..Default::default()
    };
    assert!(e.is_dir());
    assert!(!e.is_file());

    let e = FileEntry {
        mode: WIRE_S_IFLNK | 0o777,
        ..Default::default()
    };
    assert!(e.is_symlink());

    let e = FileEntry {
        mode: S_IFBLK | 0o660,
        ..Default::default()
    };
    assert!(e.is_device());

    let e = FileEntry {
        mode: S_IFIFO | 0o644,
        ..Default::default()
    };
    assert!(e.is_special());
}

#[test]
fn test_dirname_basename() {
    let e = FileEntry {
        name: b"foo/bar/baz.txt".to_vec(),
        ..Default::default()
    };
    assert_eq!(e.dirname(), Some(b"foo/bar".as_slice()));
    assert_eq!(e.basename(), b"baz.txt");

    let e = FileEntry {
        name: b"simple.txt".to_vec(),
        ..Default::default()
    };
    assert_eq!(e.dirname(), None);
    assert_eq!(e.basename(), b"simple.txt");
}

#[test]
fn test_path_utf8() {
    let e = FileEntry {
        name: b"hello/world.txt".to_vec(),
        ..Default::default()
    };
    assert_eq!(e.path(), b"hello/world.txt".to_vec());
}

#[test]
fn test_path_non_utf8_unix() {
    let e = FileEntry {
        name: b"hello/\xff\xfe.bin".to_vec(),
        ..Default::default()
    };
    assert_eq!(e.path(), b"hello/\xff\xfe.bin".to_vec());
}

#[test]
fn test_name_to_pathbuf_static() {
    let p = FileEntry::name_to_pathbuf(b"foo/bar");
    assert_eq!(p, b"foo/bar".to_vec());
}

#[test]
fn test_wire_mode_roundtrip() {
    // Regular file should pass through unchanged.
    let mode = S_IFREG | 0o644;
    assert_eq!(from_wire_mode(to_wire_mode(mode)), mode);

    // Directory should pass through unchanged.
    let mode = S_IFDIR | 0o755;
    assert_eq!(from_wire_mode(to_wire_mode(mode)), mode);
}

#[test]
fn times_before_the_epoch_are_shown() {
    assert_eq!(format_mtime(-1), "1969/12/31 23:59:59");
    assert_eq!(format_mtime(-86400), "1969/12/31 00:00:00");
    assert_eq!(format_mtime(-86401), "1969/12/30 23:59:59");
    assert_eq!(format_mtime(-2208988800), "1900/01/01 00:00:00");
    assert_eq!(format_mtime(i64::MIN), "-292277022657/01/27 08:29:52");
}

#[test]
fn only_regular_files_with_more_links_have_an_identity() {
    let entry = |mode: u32, nlink: u64| FileEntry {
        name: b"f".to_vec(),
        mode,
        hard_link_info: Some(HardLinkInfo { dev: 1, ino: 7, nlink }),
        ..Default::default()
    };
    assert_eq!(
        entry(S_IFREG | 0o644, 2).hard_link_info(),
        Some(&HardLinkInfo { dev: 1, ino: 7, nlink: 2 })
    );
    assert!(entry(S_IFREG | 0o644, 1).hard_link_info().is_none());
    assert!(entry(S_IFREG | 0o644, 0).hard_link_info().is_none());
    assert!(entry(S_IFDIR | 0o755, 2).hard_link_info().is_none());
    assert!(FileEntry { mode: S_IFREG, ..Default::default() }.hard_link_info().is_none());
}
