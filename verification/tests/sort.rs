use ferrosync_core::filelist::entry::{FileEntry, S_IFDIR, S_IFREG};
use ferrosync_core::filelist::sort::{canonical_sort, f_name_cmp};

fn file_entry(name: &[u8], is_dir: bool) -> FileEntry {
    FileEntry {
        name: name.to_vec(),
        mode: if is_dir {
            S_IFDIR | 0o755
        } else {
            S_IFREG | 0o644
        },
        ..Default::default()
    }
}

#[test]
fn test_simple_sort() {
    let mut entries = vec![
        file_entry(b"c.txt", false),
        file_entry(b"a.txt", false),
        file_entry(b"b.txt", false),
    ];
    canonical_sort(&mut entries);
    assert_eq!(entries[0].name, b"a.txt");
    assert_eq!(entries[1].name, b"b.txt");
    assert_eq!(entries[2].name, b"c.txt");
}

#[test]
fn test_files_before_dirs_at_same_level() {
    let mut entries = vec![
        file_entry(b"subdir", true),
        file_entry(b"aaa.txt", false),
        file_entry(b"zzz.txt", false),
    ];
    canonical_sort(&mut entries);
    // Files (t_ITEM) sort before directories (t_PATH) at root level,
    // matching rsync's f_name_cmp behavior.
    assert_eq!(entries[0].name, b"aaa.txt");
    assert_eq!(entries[1].name, b"zzz.txt");
    assert_eq!(entries[2].name, b"subdir");
}

#[test]
fn test_nested_paths() {
    let mut entries = vec![
        file_entry(b"src/main.rs", false),
        file_entry(b"src/lib.rs", false),
        file_entry(b"README.md", false),
        file_entry(b"src", true),
    ];
    canonical_sort(&mut entries);
    // README.md (root-level file, t_ITEM) sorts first,
    // then src/ (root-level dir, t_PATH),
    // then src/* entries (also t_PATH with dirname).
    assert_eq!(entries[0].name, b"README.md");
    assert_eq!(entries[1].name, b"src");
    assert_eq!(entries[2].name, b"src/lib.rs");
    assert_eq!(entries[3].name, b"src/main.rs");
}

#[test]
fn test_same_names() {
    let a = file_entry(b"foo", false);
    let b = file_entry(b"foo", false);
    assert_eq!(f_name_cmp(&a, &b), std::cmp::Ordering::Equal);
}

#[test]
fn test_dir_trailing_slash_effect() {
    // Root-level directories (t_PATH) sort after root-level files (t_ITEM)
    // in rsync's f_name_cmp for proto >= 29.
    let dir = file_entry(b"abc", true);
    let file_abcd = file_entry(b"abcd", false);
    let file_abd = file_entry(b"abd", false);

    // "abc" (dir, t_PATH) vs "abcd" (file, t_ITEM): dir sorts after file
    assert_eq!(f_name_cmp(&dir, &file_abcd), std::cmp::Ordering::Greater);
    // "abc" (dir, t_PATH) vs "abd" (file, t_ITEM): dir sorts after file
    assert_eq!(f_name_cmp(&dir, &file_abd), std::cmp::Ordering::Greater);
}

#[test]
fn test_sort_stability_with_subdirs() {
    let mut entries = vec![
        file_entry(b"z", false),
        file_entry(b"a/b", false),
        file_entry(b"a", true),
        file_entry(b"a/a", false),
        file_entry(b"m", false),
    ];
    canonical_sort(&mut entries);

    // Root-level files (t_ITEM) sort before root-level dirs (t_PATH).
    // Within the same type, normal alphabetical comparison applies.
    let names: Vec<&[u8]> = entries.iter().map(|e| e.name.as_slice()).collect();
    assert_eq!(names, vec![&b"m"[..], b"z", b"a", b"a/a", b"a/b"]);
}
